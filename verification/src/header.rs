//! A model of the native header's declarations.
//!
//! The signature provider hands the compiler, for each declaration it
//! parsed, a name, a kind and the typed shape the compiler reads. Only a
//! closed set of native types is recognized; every other type is carried
//! as `Other` and rejected during validation, never approximated.

use crate::names::{name_in, spec_name_in};
use crate::views::seq_view;
use vstd::prelude::*;

verus! {

/// A native type as the compiler recognizes it: an unsigned 32-bit scalar,
/// an elaborated (enum-backed, 32-bit) named type, or anything else, kept
/// by its display name only so it can be named in an error.
#[derive(Debug)]
pub enum CType {
    UInt,
    Elaborated { name: String },
    Other { name: String },
}

impl Clone for CType {
    fn clone(&self) -> (r: Self)
        ensures
            r == *self,
    {
        match self {
            CType::UInt => CType::UInt,
            CType::Elaborated { name } => CType::Elaborated { name: name.clone() },
            CType::Other { name } => CType::Other { name: name.clone() },
        }
    }
}

impl CType {
    /// Whether the compiler can put this type on the wire.
    pub open spec fn spec_supported(&self) -> bool {
        !(self is Other)
    }

    /// The name the native header displays for this type.
    pub open spec fn spec_display_name(&self) -> Seq<char> {
        match self {
            CType::UInt => "unsigned int"@,
            CType::Elaborated { name } => name@,
            CType::Other { name } => name@,
        }
    }

    /// Whether the compiler can put this type on the wire.
    pub fn supported(&self) -> (r: bool)
        ensures
            r == self.spec_supported(),
    {
        !matches!(self, CType::Other { .. })
    }

    /// The name the native header displays for this type.
    pub fn display_name(&self) -> (r: String)
        ensures
            r@ == self.spec_display_name(),
    {
        match self {
            CType::UInt => String::from_str("unsigned int"),
            CType::Elaborated { name } => name.clone(),
            CType::Other { name } => name.clone(),
        }
    }
}

/// One named, typed parameter of a native declaration.
#[derive(Debug)]
pub struct CParam {
    pub name: String,
    pub ty: CType,
}

impl Clone for CParam {
    fn clone(&self) -> (r: Self)
        ensures
            r == *self,
    {
        CParam { name: self.name.clone(), ty: self.ty.clone() }
    }
}

/// Clones a parameter list element for element.
pub fn clone_params(params: &Vec<CParam>) -> (r: Vec<CParam>)
    ensures
        r@ == params@,
{
    let mut out: Vec<CParam> = Vec::new();
    let mut i: usize = 0;
    while i < params.len()
        invariant
            0 <= i <= params@.len(),
            out@ == params@.take(i as int),
        decreases params@.len() - i,
    {
        out.push(params[i].clone());
        proof {
            assert(out@ =~= params@.take(i + 1));
        }
        i = i + 1;
    }
    proof {
        assert(params@.take(i as int) =~= params@);
    }
    out
}

/// Whether some native parameter in `params` is named `name`.
pub open spec fn spec_has_c_param(params: Seq<CParam>, name: Seq<char>) -> bool {
    exists|i: int| 0 <= i < params.len() && params[i].name@ == name
}

/// Reports whether some native parameter in `params` is named `name`.
pub fn has_c_param(params: &Vec<CParam>, name: &String) -> (r: bool)
    ensures
        r == spec_has_c_param(params@, name@),
{
    let mut i: usize = 0;
    while i < params.len()
        invariant
            0 <= i <= params@.len(),
            forall|j: int| 0 <= j < i ==> params@[j].name@ != name@,
        decreases params@.len() - i,
    {
        if params[i].name.eq(name) {
            return true;
        }
        i = i + 1;
    }
    false
}

/// The names of the native parameters, in order.
pub fn c_param_names(params: &Vec<CParam>) -> (r: Vec<String>)
    ensures
        r@.len() == params@.len(),
        forall|i: int| 0 <= i < r@.len() ==> r@[i] == params@[i].name,
{
    let mut out: Vec<String> = Vec::new();
    let mut i: usize = 0;
    while i < params.len()
        invariant
            0 <= i <= params@.len(),
            out@.len() == i,
            forall|j: int| 0 <= j < i ==> out@[j] == params@[j].name,
        decreases params@.len() - i,
    {
        out.push(params[i].name.clone());
        i = i + 1;
    }
    out
}

/// The mathematical shape of one native function.
pub ghost struct CFunctionV {
    pub return_type: CType,
    pub params: Seq<CParam>,
}

/// The shape of one native function: its return type and its ordered,
/// named parameters.
#[derive(Debug)]
pub struct CFunction {
    pub return_type: CType,
    pub params: Vec<CParam>,
}

impl View for CFunction {
    type V = CFunctionV;

    open spec fn view(&self) -> CFunctionV {
        CFunctionV { return_type: self.return_type, params: self.params@ }
    }
}

impl Clone for CFunction {
    fn clone(&self) -> (r: Self)
        ensures
            r@ == self@,
    {
        CFunction { return_type: self.return_type.clone(), params: clone_params(&self.params) }
    }
}

/// One element of a native enum definition, with its explicit value where
/// the header writes one.
#[derive(Debug)]
pub struct EnumElement {
    pub name: String,
    pub explicit_value: Option<i64>,
}

impl Clone for EnumElement {
    fn clone(&self) -> (r: Self)
        ensures
            r == *self,
    {
        EnumElement { name: self.name.clone(), explicit_value: self.explicit_value }
    }
}

/// Clones an enum element list element for element.
pub fn clone_elements(elements: &Vec<EnumElement>) -> (r: Vec<EnumElement>)
    ensures
        r@ == elements@,
{
    let mut out: Vec<EnumElement> = Vec::new();
    let mut i: usize = 0;
    while i < elements.len()
        invariant
            0 <= i <= elements@.len(),
            out@ == elements@.take(i as int),
        decreases elements@.len() - i,
    {
        out.push(elements[i].clone());
        proof {
            assert(out@ =~= elements@.take(i + 1));
        }
        i = i + 1;
    }
    proof {
        assert(elements@.take(i as int) =~= elements@);
    }
    out
}

/// The mathematical shape of what a typedef resolves to.
pub ghost enum TypedefUnderlyingV {
    Enum { elements: Seq<EnumElement> },
    Other,
}

/// What a typedef in the header resolves to: an enum definition, or
/// anything else.
#[derive(Debug)]
pub enum TypedefUnderlying {
    Enum { elements: Vec<EnumElement> },
    Other,
}

impl View for TypedefUnderlying {
    type V = TypedefUnderlyingV;

    open spec fn view(&self) -> TypedefUnderlyingV {
        match self {
            TypedefUnderlying::Enum { elements } => TypedefUnderlyingV::Enum {
                elements: elements@,
            },
            TypedefUnderlying::Other => TypedefUnderlyingV::Other,
        }
    }
}

/// The mathematical shape of one header declaration.
pub ghost enum HeaderEntityV {
    Function { name: String, def: CFunctionV },
    Typedef { name: String, underlying: TypedefUnderlyingV },
    Other,
}

/// One top-level declaration of the native header, as the signature
/// provider reports it.
#[derive(Debug)]
pub enum HeaderEntity {
    Function { name: String, def: CFunction },
    Typedef { name: String, underlying: TypedefUnderlying },
    Other,
}

impl View for HeaderEntity {
    type V = HeaderEntityV;

    open spec fn view(&self) -> HeaderEntityV {
        match self {
            HeaderEntity::Function { name, def } => HeaderEntityV::Function {
                name: *name,
                def: def@,
            },
            HeaderEntity::Typedef { name, underlying } => HeaderEntityV::Typedef {
                name: *name,
                underlying: underlying@,
            },
            HeaderEntity::Other => HeaderEntityV::Other,
        }
    }
}

/// The mathematical shape of a function picked out of the header.
pub ghost struct NamedCFunctionV {
    pub name: String,
    pub def: CFunctionV,
}

/// A native function picked out of the header under its exported name.
#[derive(Debug)]
pub struct NamedCFunction {
    pub name: String,
    pub def: CFunction,
}

impl View for NamedCFunction {
    type V = NamedCFunctionV;

    open spec fn view(&self) -> NamedCFunctionV {
        NamedCFunctionV { name: self.name, def: self.def@ }
    }
}

/// The mathematical shape of an extracted enum definition.
pub ghost struct EnumDefV {
    pub name: String,
    pub elements: Seq<EnumElement>,
}

/// An enum definition extracted for one elaborated type the contracts
/// reach.
#[derive(Debug)]
pub struct EnumDef {
    pub name: String,
    pub elements: Vec<EnumElement>,
}

impl View for EnumDef {
    type V = EnumDefV;

    open spec fn view(&self) -> EnumDefV {
        EnumDefV { name: self.name, elements: self.elements@ }
    }
}

/// The functions declared in `entities` whose names are required, in
/// declaration order.
pub open spec fn spec_extract_functions(
    entities: Seq<HeaderEntityV>,
    required: Seq<String>,
) -> Seq<NamedCFunctionV>
    decreases entities.len(),
{
    if entities.len() == 0 {
        Seq::empty()
    } else {
        let rest = spec_extract_functions(entities.skip(1), required);
        match entities[0] {
            HeaderEntityV::Function { name, def } => {
                if spec_name_in(required, name@) {
                    seq![NamedCFunctionV { name, def }] + rest
                } else {
                    rest
                }
            },
            _ => rest,
        }
    }
}

/// Picks out of `entities` every function declaration whose name is in
/// `required_functions`, in declaration order.
pub fn extract_functions(entities: &Vec<HeaderEntity>, required_functions: &Vec<String>) -> (r: Vec<
    NamedCFunction,
>)
    ensures
        seq_view(r@) == spec_extract_functions(seq_view(entities@), required_functions@),
{
    let ghost entities_v = seq_view(entities@);
    let mut result: Vec<NamedCFunction> = Vec::new();
    let mut i: usize = 0;
    proof {
        assert(entities_v.skip(0) =~= entities_v);
    }
    while i < entities.len()
        invariant
            0 <= i <= entities@.len(),
            entities_v == seq_view(entities@),
            entities_v.len() == entities@.len(),
            spec_extract_functions(entities_v, required_functions@) == seq_view(result@)
                + spec_extract_functions(entities_v.skip(i as int), required_functions@),
        decreases entities@.len() - i,
    {
        proof {
            assert(entities_v.skip(i as int)[0] == entities_v[i as int]);
            assert(entities_v[i as int] == entities@[i as int]@);
            assert(entities_v.skip(i as int).skip(1) =~= entities_v.skip(i + 1));
        }
        let ghost result_pre = result@;
        match &entities[i] {
            HeaderEntity::Function { name, def } => {
                if name_in(required_functions, name) {
                    let picked = NamedCFunction { name: name.clone(), def: def.clone() };
                    proof {
                        assert(picked@ == NamedCFunctionV { name: *name, def: def@ });
                    }
                    result.push(picked);
                    proof {
                        assert(seq_view(result@) =~= seq_view(result_pre) + seq![picked@]);
                    }
                }
            },
            _ => {},
        }
        i = i + 1;
    }
    proof {
        assert(entities_v.skip(i as int).len() == 0);
        assert(seq_view(result@) + spec_extract_functions(entities_v.skip(i as int),
        required_functions@) =~= seq_view(result@));
    }
    result
}

/// Whether some required typedef in `entities` does not resolve to an
/// enum: such an elaborated type is unsupported.
pub open spec fn spec_non_enum_required_typedef(
    entities: Seq<HeaderEntityV>,
    required: Seq<String>,
) -> bool {
    exists|i: int|
        0 <= i < entities.len() && (#[trigger] entities[i] matches HeaderEntityV::Typedef {
            name,
            underlying,
        } && spec_name_in(required, name@) && underlying is Other)
}

/// The enum definitions of the required typedefs, in declaration order;
/// meaningful when every required typedef resolves to an enum.
pub open spec fn spec_extract_enums(entities: Seq<HeaderEntityV>, required: Seq<String>) -> Seq<
    EnumDefV,
>
    decreases entities.len(),
{
    if entities.len() == 0 {
        Seq::empty()
    } else {
        let rest = spec_extract_enums(entities.skip(1), required);
        match entities[0] {
            HeaderEntityV::Typedef { name, underlying } => {
                if spec_name_in(required, name@) {
                    match underlying {
                        TypedefUnderlyingV::Enum { elements } => {
                            seq![EnumDefV { name, elements }] + rest
                        },
                        TypedefUnderlyingV::Other => rest,
                    }
                } else {
                    rest
                }
            },
            _ => rest,
        }
    }
}

/// Picks out of `entities` the enum definition behind every typedef whose
/// name is in `required_types`, in declaration order. A required typedef
/// that is not enum-backed is an unsupported type and fails extraction.
pub fn extract_enums(entities: &Vec<HeaderEntity>, required_types: &Vec<String>) -> (r: Result<
    Vec<EnumDef>,
    (),
>)
    ensures
        r matches Ok(enums) ==> seq_view(enums@) == spec_extract_enums(
            seq_view(entities@),
            required_types@,
        ),
        r is Ok <==> !spec_non_enum_required_typedef(seq_view(entities@), required_types@),
{
    let ghost entities_v = seq_view(entities@);
    let mut result: Vec<EnumDef> = Vec::new();
    let mut i: usize = 0;
    proof {
        assert(entities_v.skip(0) =~= entities_v);
    }
    while i < entities.len()
        invariant
            0 <= i <= entities@.len(),
            entities_v == seq_view(entities@),
            entities_v.len() == entities@.len(),
            spec_extract_enums(entities_v, required_types@) == seq_view(result@)
                + spec_extract_enums(entities_v.skip(i as int), required_types@),
            forall|j: int|
                0 <= j < i ==> !(#[trigger] entities_v[j] matches HeaderEntityV::Typedef {
                    name,
                    underlying,
                } && spec_name_in(required_types@, name@) && underlying is Other),
        decreases entities@.len() - i,
    {
        proof {
            assert(entities_v.skip(i as int)[0] == entities_v[i as int]);
            assert(entities_v[i as int] == entities@[i as int]@);
            assert(entities_v.skip(i as int).skip(1) =~= entities_v.skip(i + 1));
        }
        let ghost result_pre = result@;
        match &entities[i] {
            HeaderEntity::Typedef { name, underlying } => {
                if name_in(required_types, name) {
                    match underlying {
                        TypedefUnderlying::Enum { elements } => {
                            let picked = EnumDef {
                                name: name.clone(),
                                elements: clone_elements(elements),
                            };
                            proof {
                                assert(picked@ == EnumDefV { name: *name, elements: elements@ });
                            }
                            result.push(picked);
                            proof {
                                assert(seq_view(result@) =~= seq_view(result_pre) + seq![picked@]);
                            }
                        },
                        TypedefUnderlying::Other => {
                            return Err(());
                        },
                    }
                }
            },
            _ => {},
        }
        i = i + 1;
    }
    proof {
        assert(entities_v.skip(i as int).len() == 0);
        assert(seq_view(result@) + spec_extract_enums(entities_v.skip(i as int), required_types@)
            =~= seq_view(result@));
    }
    Ok(result)
}

} // verus!
