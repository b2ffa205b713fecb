use wasm2openapi::description::{
    load, resolve, resolve_signature, InterfaceDescription, RawFunction, RawItem, RawResults,
    RawWorld, TypeDef, TypeRef,
};
use wasm2openapi::error::LoadError;
use wasm2openapi::introspect::{list_wasm_component_functions, World, WorldItem};
use wasm2openapi::signature::{FunctionSignature, Results};
use wasm2openapi::types::TypeDescriptor;

fn signature(name: &str) -> FunctionSignature {
    FunctionSignature {
        name: name.to_string(),
        params: vec![],
        results: Results::Anon(TypeDescriptor::Bool),
        docs: None,
    }
}

fn raw(name: &str, param: TypeRef) -> RawFunction {
    RawFunction {
        name: name.to_string(),
        params: vec![("p".to_string(), param)],
        results: RawResults::Anon(TypeRef::Bool),
        docs: Some("docs".to_string()),
    }
}

/// A table with one definition of each supported kind.
fn table() -> Vec<TypeDef> {
    vec![
        TypeDef::Record(vec![("a".to_string(), TypeRef::U8), ("b".to_string(), TypeRef::Id(1))]),
        TypeDef::List(TypeRef::String),
        TypeDef::Alias(TypeRef::Id(0)),
        TypeDef::Resource,
        TypeDef::Handle(3),
        TypeDef::Variant(vec![
            ("x".to_string(), Some(TypeRef::Id(2))),
            ("y".to_string(), None),
        ]),
        TypeDef::Tuple(vec![TypeRef::Id(4), TypeRef::Char]),
        TypeDef::Option(TypeRef::Id(6)),
        TypeDef::Result(Some(TypeRef::Id(7)), None),
        TypeDef::Enum(vec!["e".to_string()]),
        TypeDef::Flags(vec!["f".to_string()]),
        TypeDef::Unsupported,
        TypeDef::Alias(TypeRef::Id(13)),
        TypeDef::Alias(TypeRef::Id(12)),
        TypeDef::Handle(0),
        TypeDef::Alias(TypeRef::Id(3)),
        TypeDef::Handle(15),
    ]
}

fn record() -> TypeDescriptor {
    TypeDescriptor::Record(vec![
        ("a".to_string(), TypeDescriptor::U8),
        ("b".to_string(), TypeDescriptor::List(Box::new(TypeDescriptor::String))),
    ])
}

#[test]
fn functions_are_listed_in_the_order_of_their_declaration() {
    let worlds = vec![
        World {
            name: "root".to_string(),
            exports: vec![
                WorldItem::Function(signature("zeta")),
                WorldItem::Interface,
                WorldItem::Function(signature("alpha")),
                WorldItem::Type,
            ],
        },
        World { name: "empty".to_string(), exports: vec![] },
        World { name: "foo".to_string(), exports: vec![WorldItem::Function(signature("mid"))] },
    ];
    let listed = list_wasm_component_functions(&worlds);
    let names: Vec<(&str, &str)> =
        listed.iter().map(|(world, f)| (world.as_str(), f.name.as_str())).collect();
    assert_eq!(names, vec![("root", "zeta"), ("root", "alpha"), ("foo", "mid")]);
}

#[test]
fn no_worlds_export_no_functions() {
    assert_eq!(list_wasm_component_functions(&vec![]).len(), 0);
}

#[test]
fn primitive_references_resolve_without_the_table() {
    assert_eq!(resolve(&vec![], TypeRef::U8, 0), Some(TypeDescriptor::U8));
    assert_eq!(resolve(&vec![], TypeRef::String, 0), Some(TypeDescriptor::String));
    assert_eq!(resolve(&vec![], TypeRef::Float32, 0), Some(TypeDescriptor::Float32));
}

#[test]
fn definitions_resolve_part_by_part() {
    let table = table();
    let fuel = table.len();
    assert_eq!(resolve(&table, TypeRef::Id(0), fuel), Some(record()));
    assert_eq!(resolve(&table, TypeRef::Id(2), fuel), Some(record()));
    assert_eq!(resolve(&table, TypeRef::Id(3), fuel), Some(TypeDescriptor::Resource(3)));
    assert_eq!(resolve(&table, TypeRef::Id(4), fuel), Some(TypeDescriptor::Resource(3)));
    assert_eq!(resolve(&table, TypeRef::Id(16), fuel), Some(TypeDescriptor::Resource(3)));
    assert_eq!(
        resolve(&table, TypeRef::Id(5), fuel),
        Some(TypeDescriptor::Variant(vec![
            ("x".to_string(), Some(record())),
            ("y".to_string(), None),
        ]))
    );
    let tuple = TypeDescriptor::Tuple(vec![TypeDescriptor::Resource(3), TypeDescriptor::Char]);
    let option = TypeDescriptor::Option(Box::new(tuple.clone()));
    assert_eq!(resolve(&table, TypeRef::Id(6), fuel), Some(tuple));
    assert_eq!(resolve(&table, TypeRef::Id(7), fuel), Some(option.clone()));
    assert_eq!(
        resolve(&table, TypeRef::Id(8), fuel),
        Some(TypeDescriptor::Result(Some(Box::new(option)), None))
    );
    assert_eq!(
        resolve(&table, TypeRef::Id(9), fuel),
        Some(TypeDescriptor::Enum(vec!["e".to_string()]))
    );
    assert_eq!(
        resolve(&table, TypeRef::Id(10), fuel),
        Some(TypeDescriptor::Flags(vec!["f".to_string()]))
    );
}

#[test]
fn what_cannot_be_resolved_is_nothing() {
    let table = table();
    let fuel = table.len();
    assert_eq!(resolve(&table, TypeRef::Id(17), fuel), None);
    assert_eq!(resolve(&table, TypeRef::Id(11), fuel), None);
    assert_eq!(resolve(&table, TypeRef::Id(12), fuel), None);
    assert_eq!(resolve(&table, TypeRef::Id(14), fuel), None);
    assert_eq!(resolve(&table, TypeRef::Id(0), 0), None);
    assert_eq!(resolve(&table, TypeRef::Id(0), 1), None);
    assert_eq!(resolve(&table, TypeRef::Id(0), 2), Some(record()));
}

#[test]
fn a_signature_resolves_with_its_name_and_docs() {
    let table = table();
    let declared = RawFunction {
        name: "f".to_string(),
        params: vec![("p".to_string(), TypeRef::Id(1)), ("q".to_string(), TypeRef::S64)],
        results: RawResults::Named(vec![("r".to_string(), TypeRef::Id(9))]),
        docs: Some("Does f.".to_string()),
    };
    assert_eq!(
        resolve_signature(&table, &declared),
        Some(FunctionSignature {
            name: "f".to_string(),
            params: vec![
                ("p".to_string(), TypeDescriptor::List(Box::new(TypeDescriptor::String))),
                ("q".to_string(), TypeDescriptor::S64),
            ],
            results: Results::Named(vec![(
                "r".to_string(),
                TypeDescriptor::Enum(vec!["e".to_string()])
            )]),
            docs: Some("Does f.".to_string()),
        })
    );
    assert_eq!(resolve_signature(&table, &raw("g", TypeRef::Id(11))), None);
    let bad_result = RawFunction {
        name: "h".to_string(),
        params: vec![],
        results: RawResults::Anon(TypeRef::Id(99)),
        docs: None,
    };
    assert_eq!(resolve_signature(&table, &bad_result), None);
}

#[test]
fn a_description_loads_world_by_world() {
    let description = InterfaceDescription {
        types: table(),
        worlds: vec![
            RawWorld {
                name: "root".to_string(),
                exports: vec![
                    RawItem::Function(raw("add", TypeRef::S32)),
                    RawItem::Interface,
                    RawItem::Type,
                ],
            },
            RawWorld {
                name: "foo".to_string(),
                exports: vec![RawItem::Function(raw("add", TypeRef::Id(1)))],
            },
        ],
    };
    let resolved = |param: TypeDescriptor| FunctionSignature {
        name: "add".to_string(),
        params: vec![("p".to_string(), param)],
        results: Results::Anon(TypeDescriptor::Bool),
        docs: Some("docs".to_string()),
    };
    assert_eq!(
        load(&description),
        Ok(vec![
            World {
                name: "root".to_string(),
                exports: vec![
                    WorldItem::Function(resolved(TypeDescriptor::S32)),
                    WorldItem::Interface,
                    WorldItem::Type,
                ],
            },
            World {
                name: "foo".to_string(),
                exports: vec![WorldItem::Function(resolved(TypeDescriptor::List(Box::new(
                    TypeDescriptor::String
                ))))],
            },
        ])
    );
}

#[test]
fn a_description_with_an_unresolved_type_is_malformed() {
    let description = InterfaceDescription {
        types: table(),
        worlds: vec![
            RawWorld {
                name: "root".to_string(),
                exports: vec![RawItem::Function(raw("fine", TypeRef::S32))],
            },
            RawWorld {
                name: "foo".to_string(),
                exports: vec![RawItem::Function(raw("loops", TypeRef::Id(12)))],
            },
        ],
    };
    assert_eq!(
        load(&description),
        Err(LoadError::InterfaceDecodeError(
            "a type of an exported function cannot be resolved".to_string()
        ))
    );
}

#[test]
fn an_empty_description_has_no_worlds() {
    let description = InterfaceDescription { types: vec![], worlds: vec![] };
    assert_eq!(load(&description), Ok(vec![]));
}
