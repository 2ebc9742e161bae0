//! Hand-authored per-function metadata: the stable call identifier and the
//! direction of every parameter.

use std::collections::HashSet;
use vstd::prelude::*;

verus! {

broadcast use vstd::std_specs::hash::group_hash_axioms;

/// Whether a parameter's value flows from caller to callee (`IN`) or is
/// written by the callee for the caller to read back (`OUT`).
#[allow(non_camel_case_types)]
#[derive(PartialEq, Eq, Structural, Clone, Copy, Debug)]
pub enum ParameterDirection {
    IN,
    OUT,
}

/// One described parameter: its name in the native declaration and its
/// direction.
#[derive(Debug)]
pub struct FunctionParameter {
    pub name: String,
    pub direction: ParameterDirection,
}

impl Clone for FunctionParameter {
    fn clone(&self) -> (r: Self)
        ensures
            r == *self,
    {
        FunctionParameter { name: self.name.clone(), direction: self.direction }
    }
}

/// Clones a described parameter list element for element.
pub fn clone_fn_params(params: &Vec<FunctionParameter>) -> (r: Vec<FunctionParameter>)
    ensures
        r@ == params@,
{
    let mut out: Vec<FunctionParameter> = Vec::new();
    let mut i: usize = 0;
    while i < params.len()
        invariant
            0 <= i <= params@.len(),
            out@ == params@.take(i as int),
        decreases params@.len() - i,
    {
        out.push(params[i].clone());
        proof {
            assert(out@ =~= params@.take(i + 1));
        }
        i = i + 1;
    }
    proof {
        assert(params@.take(i as int) =~= params@);
    }
    out
}

/// The mathematical shape of one function description.
pub ghost struct FunctionDescriptionV {
    pub name: String,
    pub id: u32,
    pub params: Seq<FunctionParameter>,
}

/// The hand-authored description of one proxied function.
#[derive(Debug)]
pub struct FunctionDescription {
    pub name: String,
    pub id: u32,
    pub params: Vec<FunctionParameter>,
}

impl View for FunctionDescription {
    type V = FunctionDescriptionV;

    open spec fn view(&self) -> FunctionDescriptionV {
        FunctionDescriptionV { name: self.name, id: self.id, params: self.params@ }
    }
}

impl Clone for FunctionDescription {
    fn clone(&self) -> (r: Self)
        ensures
            r@ == self@,
    {
        FunctionDescription {
            name: self.name.clone(),
            id: self.id,
            params: clone_fn_params(&self.params),
        }
    }
}

/// The first parameter in `params` whose name is `name`, if any.
pub open spec fn spec_find_param(params: Seq<FunctionParameter>, name: Seq<char>) -> Option<
    FunctionParameter,
>
    decreases params.len(),
{
    if params.len() == 0 {
        None
    } else if params[0].name@ == name {
        Some(params[0])
    } else {
        spec_find_param(params.skip(1), name)
    }
}

/// Whether some parameter in `params` is named `name`.
pub open spec fn spec_has_param(params: Seq<FunctionParameter>, name: Seq<char>) -> bool {
    spec_find_param(params, name) is Some
}

pub proof fn lemma_find_param_exists(params: Seq<FunctionParameter>, name: Seq<char>)
    ensures
        spec_has_param(params, name) <==> exists|i: int|
            0 <= i < params.len() && params[i].name@ == name,
        spec_find_param(params, name) matches Some(p) ==> exists|i: int|
            0 <= i < params.len() && params[i] == p && p.name@ == name,
    decreases params.len(),
{
    if params.len() > 0 {
        lemma_find_param_exists(params.skip(1), name);
        assert(forall|i: int|
            0 <= i < params.skip(1).len() ==> params.skip(1)[i] == params[i + 1]);
        if params[0].name@ != name {
            if exists|i: int| 0 <= i < params.len() && params[i].name@ == name {
                let i = choose|i: int| 0 <= i < params.len() && params[i].name@ == name;
                assert(i >= 1 && params.skip(1)[i - 1].name@ == name);
            }
        }
    }
}

impl FunctionDescription {
    /// The first described parameter with the given name; the name must be
    /// one of the described parameters.
    pub fn get_param(&self, name: &String) -> (r: &FunctionParameter)
        requires
            spec_has_param(self.params@, name@),
        ensures
            Some(*r) == spec_find_param(self.params@, name@),
            r.name@ == name@,
    {
        let mut i: usize = 0;
        proof {
            assert(self.params@.skip(0) =~= self.params@);
        }
        while i < self.params.len()
            invariant
                0 <= i <= self.params@.len(),
                spec_has_param(self.params@, name@),
                spec_find_param(self.params@, name@) == spec_find_param(
                    self.params@.skip(i as int),
                    name@,
                ),
            decreases self.params@.len() - i,
        {
            proof {
                assert(self.params@.skip(i as int)[0] == self.params@[i as int]);
            }
            if self.params[i].name.eq(name) {
                proof {
                    assert(spec_find_param(self.params@.skip(i as int), name@) == Some(
                        self.params@[i as int],
                    ));
                }
                return &self.params[i];
            }
            proof {
                assert(self.params@.skip(i as int).skip(1) =~= self.params@.skip(i + 1));
            }
            i = i + 1;
        }
        proof {
            assert(self.params@.skip(i as int).len() == 0);
        }
        unreached()
    }
}

/// Reports whether some described parameter is named `name`.
pub fn has_param(params: &Vec<FunctionParameter>, name: &String) -> (r: bool)
    ensures
        r == spec_has_param(params@, name@),
{
    let ghost ps = params@;
    proof {
        lemma_find_param_exists(ps, name@);
        assert(ps.skip(0) =~= ps);
    }
    let mut i: usize = 0;
    while i < params.len()
        invariant
            0 <= i <= ps.len(),
            ps == params@,
            spec_find_param(ps, name@) == spec_find_param(ps.skip(i as int), name@),
        decreases ps.len() - i,
    {
        proof {
            assert(ps.skip(i as int)[0] == ps[i as int]);
        }
        if params[i].name.eq(name) {
            return true;
        }
        proof {
            assert(ps.skip(i as int).skip(1) =~= ps.skip(i + 1));
        }
        i = i + 1;
    }
    proof {
        assert(ps.skip(i as int).len() == 0);
    }
    false
}

/// The names of the described parameters, in order.
pub fn param_names(params: &Vec<FunctionParameter>) -> (r: Vec<String>)
    ensures
        r@.len() == params@.len(),
        forall|i: int| 0 <= i < r@.len() ==> r@[i] == params@[i].name,
{
    let mut out: Vec<String> = Vec::new();
    let mut i: usize = 0;
    while i < params.len()
        invariant
            0 <= i <= params@.len(),
            out@.len() == i,
            forall|j: int| 0 <= j < i ==> out@[j] == params@[j].name,
        decreases params@.len() - i,
    {
        out.push(params[i].name.clone());
        i = i + 1;
    }
    out
}

/// Whether no two descriptions in `descs` share an identifier.
pub open spec fn spec_ids_unique(descs: Seq<FunctionDescriptionV>) -> bool {
    forall|i: int, j: int| 0 <= i < j < descs.len() ==> descs[i].id != descs[j].id
}

/// The identifiers of the first `n` descriptions.
pub open spec fn spec_prefix_ids(descs: Seq<FunctionDescription>, n: int) -> Set<u32> {
    Set::new(|id: u32| exists|j: int| 0 <= j < n && descs[j].id == id)
}

/// Reports whether every description carries its own identifier: a set with
/// two entries sharing an identifier must fail generation.
pub fn check_id_uniqueness(function_descriptions: &Vec<FunctionDescription>) -> (r: bool)
    ensures
        r == spec_ids_unique(crate::views::seq_view(function_descriptions@)),
{
    let ghost descs = function_descriptions@;
    proof {
        assert(forall|j: int|
            0 <= j < descs.len() ==> (#[trigger] crate::views::seq_view(descs)[j]).id
                == descs[j].id);
    }
    let mut seen_ids: HashSet<u32> = HashSet::new();
    let mut i: usize = 0;
    while i < function_descriptions.len()
        invariant
            0 <= i <= descs.len(),
            descs == function_descriptions@,
            vstd::std_specs::hash::obeys_key_model::<u32>(),
            seen_ids@ == spec_prefix_ids(descs, i as int),
            forall|a: int, b: int| 0 <= a < b < i ==> descs[a].id != descs[b].id,
        decreases descs.len() - i,
    {
        let inserted = seen_ids.insert(function_descriptions[i].id);
        if !inserted {
            proof {
                let j = choose|j: int| 0 <= j < i && descs[j].id == descs[i as int].id;
                assert(crate::views::seq_view(descs)[j].id == descs[j].id);
                assert(crate::views::seq_view(descs)[i as int].id == descs[i as int].id);
            }
            return false;
        }
        proof {
            assert(seen_ids@ =~= spec_prefix_ids(descs, i + 1));
        }
        i = i + 1;
    }
    true
}

} // verus!
