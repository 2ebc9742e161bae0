use cuda_over_ip::contract::{build_contracts, FunctionDef, GenError};
use cuda_over_ip::descriptor::{
    check_id_uniqueness, FunctionDescription, FunctionParameter, ParameterDirection,
};
use cuda_over_ip::header::{
    extract_enums, extract_functions, CFunction, CParam, CType, EnumElement, HeaderEntity,
    NamedCFunction, TypedefUnderlying,
};

fn desc(name: &str, id: u32, params: Vec<(&str, ParameterDirection)>) -> FunctionDescription {
    FunctionDescription {
        name: String::from(name),
        id,
        params: params
            .into_iter()
            .map(|(n, direction)| FunctionParameter { name: String::from(n), direction })
            .collect(),
    }
}

fn named(name: &str, return_type: CType, params: Vec<(&str, CType)>) -> NamedCFunction {
    NamedCFunction {
        name: String::from(name),
        def: CFunction {
            return_type,
            params: params
                .into_iter()
                .map(|(n, ty)| CParam { name: String::from(n), ty })
                .collect(),
        },
    }
}

fn elaborated(name: &str) -> CType {
    CType::Elaborated { name: String::from(name) }
}

#[test]
fn unique_ids_pass() {
    let descs = vec![desc("a", 1, vec![]), desc("b", 2, vec![]), desc("c", 3, vec![])];
    assert!(check_id_uniqueness(&descs));
}

#[test]
fn duplicate_ids_fail() {
    let descs = vec![desc("a", 1, vec![]), desc("b", 2, vec![]), desc("c", 1, vec![])];
    assert!(!check_id_uniqueness(&descs));
}

#[test]
fn duplicate_ids_fail_generation() {
    let descs = vec![desc("a", 1, vec![]), desc("b", 1, vec![])];
    let funcs = vec![
        named("a", elaborated("nvmlReturn_t"), vec![]),
        named("b", elaborated("nvmlReturn_t"), vec![]),
    ];
    assert_eq!(build_contracts(&descs, &funcs).unwrap_err(), GenError::DuplicateId);
}

#[test]
fn matching_set_produces_one_contract_per_descriptor() {
    let descs = vec![
        desc("getVersion", 1, vec![]),
        desc("initWithFlags", 2, vec![("flags", ParameterDirection::IN)]),
    ];
    let funcs = vec![
        named("getVersion", elaborated("nvmlReturn_t"), vec![]),
        named("initWithFlags", elaborated("nvmlReturn_t"), vec![("flags", CType::UInt)]),
    ];
    let contracts = build_contracts(&descs, &funcs).unwrap();
    assert_eq!(contracts.len(), 2);
    assert_eq!(contracts[0].description.name, "getVersion");
    assert_eq!(contracts[1].description.name, "initWithFlags");
    assert_eq!(contracts[1].c_function.params.len(), 1);
}

#[test]
fn missing_signature_fails_generation() {
    let descs = vec![desc("getVersion", 1, vec![])];
    let funcs = vec![named("somethingElse", elaborated("nvmlReturn_t"), vec![])];
    assert_eq!(build_contracts(&descs, &funcs).unwrap_err(), GenError::MissingSignature);
}

#[test]
fn absent_parameter_name_fails_generation() {
    let descs = vec![desc("initWithFlags", 1, vec![("banner", ParameterDirection::IN)])];
    let funcs = vec![
        named("initWithFlags", elaborated("nvmlReturn_t"), vec![("flags", CType::UInt)]),
    ];
    assert_eq!(build_contracts(&descs, &funcs).unwrap_err(), GenError::ParamMismatch);
}

#[test]
fn undescribed_parameter_fails_generation() {
    let descs = vec![desc("initWithFlags", 1, vec![])];
    let funcs = vec![
        named("initWithFlags", elaborated("nvmlReturn_t"), vec![("flags", CType::UInt)]),
    ];
    assert_eq!(build_contracts(&descs, &funcs).unwrap_err(), GenError::ParamMismatch);
}

#[test]
fn unsupported_type_fails_generation() {
    let descs = vec![desc("query", 1, vec![("out", ParameterDirection::OUT)])];
    let funcs = vec![
        named(
            "query",
            elaborated("nvmlReturn_t"),
            vec![("out", CType::Other { name: String::from("char *") })],
        ),
    ];
    assert_eq!(build_contracts(&descs, &funcs).unwrap_err(), GenError::UnsupportedType);
}

#[test]
fn case_transform_collision_fails_generation() {
    let descs = vec![desc("getVersion", 1, vec![]), desc("get_version", 2, vec![])];
    let funcs = vec![
        named("getVersion", elaborated("nvmlReturn_t"), vec![]),
        named("get_version", elaborated("nvmlReturn_t"), vec![]),
    ];
    assert_eq!(build_contracts(&descs, &funcs).unwrap_err(), GenError::NameCollision);
}

#[test]
fn get_param_finds_by_name() {
    let d = desc(
        "f",
        1,
        vec![("a", ParameterDirection::IN), ("b", ParameterDirection::OUT)],
    );
    let p = d.get_param(&String::from("b"));
    assert_eq!(p.name, "b");
    assert_eq!(p.direction, ParameterDirection::OUT);
}

#[test]
fn extract_functions_picks_required_in_order() {
    let entities = vec![
        HeaderEntity::Other,
        HeaderEntity::Function {
            name: String::from("keepMe"),
            def: CFunction { return_type: CType::UInt, params: vec![] },
        },
        HeaderEntity::Function {
            name: String::from("dropMe"),
            def: CFunction { return_type: CType::UInt, params: vec![] },
        },
        HeaderEntity::Function {
            name: String::from("keepMeToo"),
            def: CFunction { return_type: CType::UInt, params: vec![] },
        },
    ];
    let required = vec![String::from("keepMe"), String::from("keepMeToo")];
    let found = extract_functions(&entities, &required);
    assert_eq!(found.len(), 2);
    assert_eq!(found[0].name, "keepMe");
    assert_eq!(found[1].name, "keepMeToo");
}

#[test]
fn extract_enums_picks_required_enum_typedefs() {
    let entities = vec![
        HeaderEntity::Typedef {
            name: String::from("nvmlReturn_t"),
            underlying: TypedefUnderlying::Enum {
                elements: vec![
                    EnumElement { name: String::from("NVML_SUCCESS"), explicit_value: Some(0) },
                    EnumElement {
                        name: String::from("NVML_ERROR_UNINITIALIZED"),
                        explicit_value: Some(1),
                    },
                ],
            },
        },
        HeaderEntity::Typedef {
            name: String::from("ignored_t"),
            underlying: TypedefUnderlying::Enum { elements: vec![] },
        },
    ];
    let required = vec![String::from("nvmlReturn_t")];
    let enums = extract_enums(&entities, &required).unwrap();
    assert_eq!(enums.len(), 1);
    assert_eq!(enums[0].name, "nvmlReturn_t");
    assert_eq!(enums[0].elements.len(), 2);
}

#[test]
fn extract_enums_rejects_non_enum_required_typedef() {
    let entities = vec![
        HeaderEntity::Typedef {
            name: String::from("nvmlDevice_t"),
            underlying: TypedefUnderlying::Other,
        },
    ];
    let required = vec![String::from("nvmlDevice_t")];
    assert!(extract_enums(&entities, &required).is_err());
}

#[test]
fn required_nontrivial_types_lists_return_and_elaborated_params_once() {
    let descs = vec![
        desc(
            "f",
            1,
            vec![
                ("a", ParameterDirection::IN),
                ("b", ParameterDirection::IN),
                ("c", ParameterDirection::OUT),
            ],
        ),
    ];
    let funcs = vec![
        named(
            "f",
            elaborated("nvmlReturn_t"),
            vec![
                ("a", CType::UInt),
                ("b", elaborated("nvmlReturn_t")),
                ("c", elaborated("nvmlDevice_t")),
            ],
        ),
    ];
    let contracts = build_contracts(&descs, &funcs).unwrap();
    let types = contracts[0].required_nontrivial_types();
    assert_eq!(types.len(), 2);
    assert!(types.contains(&String::from("nvmlReturn_t")));
    assert!(types.contains(&String::from("nvmlDevice_t")));
}

#[test]
fn contract_keeps_description_order() {
    let descs = vec![desc("zeta", 9, vec![]), desc("alpha", 3, vec![])];
    let funcs = vec![
        named("alpha", elaborated("nvmlReturn_t"), vec![]),
        named("zeta", elaborated("nvmlReturn_t"), vec![]),
    ];
    let contracts: Vec<FunctionDef> = build_contracts(&descs, &funcs).unwrap();
    assert_eq!(contracts[0].description.name, "zeta");
    assert_eq!(contracts[0].description.id, 9);
    assert_eq!(contracts[1].description.name, "alpha");
}

#[test]
fn required_types_union_is_deduplicated_across_contracts() {
    let descs = vec![
        desc("f", 1, vec![]),
        desc("g", 2, vec![("mode", ParameterDirection::IN)]),
    ];
    let funcs = vec![
        named("f", elaborated("nvmlReturn_t"), vec![]),
        named("g", elaborated("nvmlReturn_t"), vec![("mode", elaborated("nvmlMode_t"))]),
    ];
    let contracts = build_contracts(&descs, &funcs).unwrap();
    let types = cuda_over_ip::contract::required_types_of(&contracts);
    assert_eq!(types.len(), 2);
    assert!(types.contains(&String::from("nvmlReturn_t")));
    assert!(types.contains(&String::from("nvmlMode_t")));
}

#[test]
fn reserved_return_field_name_fails_generation() {
    let descs = vec![desc("f", 1, vec![("return", ParameterDirection::IN)])];
    let funcs = vec![named("f", elaborated("nvmlReturn_t"), vec![("return", CType::UInt)])];
    assert_eq!(build_contracts(&descs, &funcs).unwrap_err(), GenError::NameCollision);
}
