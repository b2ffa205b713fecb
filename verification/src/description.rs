//! The interface description of a component, as it is declared: types that
//! refer to one another by their place in a table, and functions whose
//! parameters and results refer to those types. Loading a description
//! resolves every reference, so that no type that reaches the codec refers to
//! another.

use vstd::prelude::*;
use crate::docs::optional_text;
use crate::error::LoadError;
use crate::introspect::{exports_model, worlds_model, World, WorldItem, WorldItemModel, WorldModel};
use crate::signature::{FunctionSignature, Results, ResultsModel, SignatureModel};
use crate::types::{
    cases_model, clone_names, fields_model, lemma_record_model, lemma_tuple_model,
    lemma_variant_model, names_model, payload_model, types_model, TypeDescriptor, TypeModel,
};

verus! {

/// A type as a declaration names it: a primitive type, or the definition at
/// a position of the table of types.
#[derive(Clone, Copy, Debug, PartialEq, Eq, Structural)]
pub enum TypeRef {
    Bool,
    U8,
    U16,
    U32,
    U64,
    S8,
    S16,
    S32,
    S64,
    Float32,
    Float64,
    Char,
    String,
    Id(usize),
}

/// The definition of a type, in terms of other types.
#[derive(Clone, Debug, PartialEq, Eq)]
pub enum TypeDef {
    Record(Vec<(String, TypeRef)>),
    /// A resource type.
    Resource,
    /// A handle, owned or borrowed, to the resource defined at a position.
    Handle(usize),
    Flags(Vec<String>),
    Tuple(Vec<TypeRef>),
    Variant(Vec<(String, Option<TypeRef>)>),
    Enum(Vec<String>),
    Option(TypeRef),
    Result(Option<TypeRef>, Option<TypeRef>),
    List(TypeRef),
    /// Another name for a type.
    Alias(TypeRef),
    /// A type that has no JSON form: a future, a stream, or a type of
    /// unknown structure.
    Unsupported,
}

/// The mathematical value of a [`TypeDef`].
pub enum TypeDefModel {
    Record(Seq<(Seq<char>, TypeRef)>),
    Resource,
    Handle(usize),
    Flags(Seq<Seq<char>>),
    Tuple(Seq<TypeRef>),
    Variant(Seq<(Seq<char>, Option<TypeRef>)>),
    Enum(Seq<Seq<char>>),
    Option(TypeRef),
    Result(Option<TypeRef>, Option<TypeRef>),
    List(TypeRef),
    Alias(TypeRef),
    Unsupported,
}

/// The names and references of a list of named references.
pub open spec fn named_refs_model(fields: Seq<(String, TypeRef)>) -> Seq<(Seq<char>, TypeRef)> {
    Seq::new(fields.len(), |i: int| (fields[i].0@, fields[i].1))
}

/// The names and references of a list of cases.
pub open spec fn case_refs_model(cases: Seq<(String, Option<TypeRef>)>) -> Seq<
    (Seq<char>, Option<TypeRef>),
> {
    Seq::new(cases.len(), |i: int| (cases[i].0@, cases[i].1))
}

impl View for TypeDef {
    type V = TypeDefModel;

    open spec fn view(&self) -> TypeDefModel {
        match self {
            TypeDef::Record(fields) => TypeDefModel::Record(named_refs_model(fields@)),
            TypeDef::Resource => TypeDefModel::Resource,
            TypeDef::Handle(target) => TypeDefModel::Handle(*target),
            TypeDef::Flags(names) => TypeDefModel::Flags(names_model(names@)),
            TypeDef::Tuple(items) => TypeDefModel::Tuple(items@),
            TypeDef::Variant(cases) => TypeDefModel::Variant(case_refs_model(cases@)),
            TypeDef::Enum(names) => TypeDefModel::Enum(names_model(names@)),
            TypeDef::Option(inner) => TypeDefModel::Option(*inner),
            TypeDef::Result(ok, err) => TypeDefModel::Result(*ok, *err),
            TypeDef::List(inner) => TypeDefModel::List(*inner),
            TypeDef::Alias(inner) => TypeDefModel::Alias(*inner),
            TypeDef::Unsupported => TypeDefModel::Unsupported,
        }
    }
}

/// The definitions of a table of types.
pub open spec fn table_model(table: Seq<TypeDef>) -> Seq<TypeDefModel> {
    Seq::new(table.len(), |i: int| table[i]@)
}

/// All the values, where every one is there; nothing, where one is missing.
pub open spec fn all_or_nothing<T>(items: Seq<Option<T>>) -> Option<Seq<T>> {
    if forall|i: int| 0 <= i < items.len() ==> (#[trigger] items[i]) is Some {
        Some(Seq::new(items.len(), |i: int| items[i]->Some_0))
    } else {
        None
    }
}

/// A resolved type under the name of its field.
pub open spec fn named<T>(name: Seq<char>, resolved: Option<T>) -> Option<(Seq<char>, T)> {
    match resolved {
        Some(t) => Some((name, t)),
        None => None,
    }
}

/// A payload type that may be absent, boxed.
pub open spec fn boxed(payload: Option<TypeModel>) -> Option<Box<TypeModel>> {
    match payload {
        Some(t) => Some(Box::new(t)),
        None => None,
    }
}

/// The type that a reference stands for, following at most `fuel`
/// definitions one into the other.
///
/// There is none where the reference, or one that it leads to, points
/// outside the table, to a type without a JSON form, or to a handle of what
/// is no resource; nor where more than `fuel` definitions lie one in the
/// other, which with a `fuel` of the table's length means that a definition
/// holds itself.
pub open spec fn resolve_ref(table: Seq<TypeDefModel>, r: TypeRef, fuel: nat) -> Option<TypeModel>
    decreases fuel, 0nat,
{
    match r {
        TypeRef::Bool => Some(TypeModel::Bool),
        TypeRef::U8 => Some(TypeModel::U8),
        TypeRef::U16 => Some(TypeModel::U16),
        TypeRef::U32 => Some(TypeModel::U32),
        TypeRef::U64 => Some(TypeModel::U64),
        TypeRef::S8 => Some(TypeModel::S8),
        TypeRef::S16 => Some(TypeModel::S16),
        TypeRef::S32 => Some(TypeModel::S32),
        TypeRef::S64 => Some(TypeModel::S64),
        TypeRef::Float32 => Some(TypeModel::Float32),
        TypeRef::Float64 => Some(TypeModel::Float64),
        TypeRef::Char => Some(TypeModel::Char),
        TypeRef::String => Some(TypeModel::String),
        TypeRef::Id(i) => if fuel == 0 || i >= table.len() {
            None
        } else {
            let rest = (fuel - 1) as nat;
            match table[i as int] {
                TypeDefModel::Record(fields) => match all_or_nothing(
                    resolved_fields(table, fields, rest),
                ) {
                    Some(resolved) => Some(TypeModel::Record(resolved)),
                    None => None,
                },
                TypeDefModel::Resource => if i <= u32::MAX {
                    Some(TypeModel::Resource(i as u32))
                } else {
                    None
                },
                TypeDefModel::Handle(target) => match resolve_ref(
                    table,
                    TypeRef::Id(target),
                    rest,
                ) {
                    Some(TypeModel::Resource(id)) => Some(TypeModel::Resource(id)),
                    _ => None,
                },
                TypeDefModel::Flags(names) => Some(TypeModel::Flags(names)),
                TypeDefModel::Tuple(items) => match all_or_nothing(
                    resolved_items(table, items, rest),
                ) {
                    Some(resolved) => Some(TypeModel::Tuple(resolved)),
                    None => None,
                },
                TypeDefModel::Variant(cases) => match all_or_nothing(
                    resolved_cases(table, cases, rest),
                ) {
                    Some(resolved) => Some(TypeModel::Variant(resolved)),
                    None => None,
                },
                TypeDefModel::Enum(names) => Some(TypeModel::Enum(names)),
                TypeDefModel::Option(inner) => match resolve_ref(table, inner, rest) {
                    Some(t) => Some(TypeModel::Option(Box::new(t))),
                    None => None,
                },
                TypeDefModel::Result(ok, err) => match (
                    resolve_optional(table, ok, rest),
                    resolve_optional(table, err, rest),
                ) {
                    (Some(on_ok), Some(on_err)) => Some(
                        TypeModel::Result(boxed(on_ok), boxed(on_err)),
                    ),
                    _ => None,
                },
                TypeDefModel::List(inner) => match resolve_ref(table, inner, rest) {
                    Some(t) => Some(TypeModel::List(Box::new(t))),
                    None => None,
                },
                TypeDefModel::Alias(inner) => resolve_ref(table, inner, rest),
                TypeDefModel::Unsupported => None,
            }
        },
    }
}

/// The type that a reference stands for, where there is a reference.
pub open spec fn resolve_optional(table: Seq<TypeDefModel>, r: Option<TypeRef>, fuel: nat) -> Option<
    Option<TypeModel>,
>
    decreases fuel, 1nat,
{
    match r {
        Some(inner) => match resolve_ref(table, inner, fuel) {
            Some(t) => Some(Some(t)),
            None => None,
        },
        None => Some(None),
    }
}

/// What each of the fields resolves to, under its name.
pub open spec fn resolved_fields(
    table: Seq<TypeDefModel>,
    fields: Seq<(Seq<char>, TypeRef)>,
    fuel: nat,
) -> Seq<Option<(Seq<char>, TypeModel)>>
    decreases fuel, 1nat,
{
    Seq::new(fields.len(), |k: int| named(fields[k].0, resolve_ref(table, fields[k].1, fuel)))
}

/// What each of the references resolves to.
pub open spec fn resolved_items(table: Seq<TypeDefModel>, items: Seq<TypeRef>, fuel: nat) -> Seq<
    Option<TypeModel>,
>
    decreases fuel, 1nat,
{
    Seq::new(items.len(), |k: int| resolve_ref(table, items[k], fuel))
}

/// What the payload of each of the cases resolves to, under the case's name.
pub open spec fn resolved_cases(
    table: Seq<TypeDefModel>,
    cases: Seq<(Seq<char>, Option<TypeRef>)>,
    fuel: nat,
) -> Seq<Option<(Seq<char>, Option<TypeModel>)>>
    decreases fuel, 2nat,
{
    Seq::new(cases.len(), |k: int| named(cases[k].0, resolve_optional(table, cases[k].1, fuel)))
}

/// The mathematical value of a type that may not have resolved.
pub open spec fn resolved_model(t: Option<TypeDescriptor>) -> Option<TypeModel> {
    match t {
        Some(t) => Some(t@),
        None => None,
    }
}

/// The types that the fields resolve to, under their names; nothing, where
/// one of them does not resolve.
fn resolve_named(table: &Vec<TypeDef>, fields: &Vec<(String, TypeRef)>, fuel: usize) -> (r: Option<
    Vec<(String, TypeDescriptor)>,
>)
    ensures
        match r {
            Some(out) => all_or_nothing(
                resolved_fields(table_model(table@), named_refs_model(fields@), fuel as nat),
            ) == Some(fields_model(out@)),
            None => all_or_nothing(
                resolved_fields(table_model(table@), named_refs_model(fields@), fuel as nat),
            ) is None,
        },
    decreases fuel, 1int,
{
    let ghost target = resolved_fields(table_model(table@), named_refs_model(fields@), fuel as nat);
    let mut out: Vec<(String, TypeDescriptor)> = Vec::new();
    let mut i: usize = 0;
    while i < fields.len()
        invariant
            i <= fields.len(),
            target == resolved_fields(table_model(table@), named_refs_model(fields@), fuel as nat),
            out.len() == i,
            forall|k: int|
                0 <= k < i ==> #[trigger] target[k] == Some((out[k].0@, out[k].1@)),
        decreases fields.len() - i,
    {
        match resolve(table, fields[i].1, fuel) {
            Some(t) => {
                out.push((fields[i].0.clone(), t));
            },
            None => {
                assert(target[i as int] is None);
                return None;
            },
        }
        i += 1;
    }
    assert(all_or_nothing(target)->Some_0 =~= fields_model(out@));
    Some(out)
}

/// The types that the references resolve to; nothing, where one of them
/// does not resolve.
fn resolve_each(table: &Vec<TypeDef>, items: &Vec<TypeRef>, fuel: usize) -> (r: Option<
    Vec<TypeDescriptor>,
>)
    ensures
        match r {
            Some(out) => all_or_nothing(resolved_items(table_model(table@), items@, fuel as nat))
                == Some(types_model(out@)),
            None => all_or_nothing(
                resolved_items(table_model(table@), items@, fuel as nat),
            ) is None,
        },
    decreases fuel, 1int,
{
    let ghost target = resolved_items(table_model(table@), items@, fuel as nat);
    let mut out: Vec<TypeDescriptor> = Vec::new();
    let mut i: usize = 0;
    while i < items.len()
        invariant
            i <= items.len(),
            target == resolved_items(table_model(table@), items@, fuel as nat),
            out.len() == i,
            forall|k: int| 0 <= k < i ==> #[trigger] target[k] == Some(out[k]@),
        decreases items.len() - i,
    {
        match resolve(table, items[i], fuel) {
            Some(t) => {
                out.push(t);
            },
            None => {
                assert(target[i as int] is None);
                return None;
            },
        }
        i += 1;
    }
    assert(all_or_nothing(target)->Some_0 =~= types_model(out@));
    Some(out)
}

/// The type that a reference resolves to, where there is a reference.
fn resolve_payload(table: &Vec<TypeDef>, r: &Option<TypeRef>, fuel: usize) -> (out: Option<
    Option<TypeDescriptor>,
>)
    ensures
        match out {
            Some(payload) => resolve_optional(table_model(table@), *r, fuel as nat) == Some(
                payload_model(payload),
            ),
            None => resolve_optional(table_model(table@), *r, fuel as nat) is None,
        },
    decreases fuel, 1int,
{
    match r {
        Some(inner) => match resolve(table, *inner, fuel) {
            Some(t) => Some(Some(t)),
            None => None,
        },
        None => Some(None),
    }
}

/// The payload types that the cases resolve to, under their names; nothing,
/// where one of them does not resolve.
fn resolve_cases(table: &Vec<TypeDef>, cases: &Vec<(String, Option<TypeRef>)>, fuel: usize) -> (r:
    Option<Vec<(String, Option<TypeDescriptor>)>>)
    ensures
        match r {
            Some(out) => all_or_nothing(
                resolved_cases(table_model(table@), case_refs_model(cases@), fuel as nat),
            ) == Some(cases_model(out@)),
            None => all_or_nothing(
                resolved_cases(table_model(table@), case_refs_model(cases@), fuel as nat),
            ) is None,
        },
    decreases fuel, 2int,
{
    let ghost target = resolved_cases(table_model(table@), case_refs_model(cases@), fuel as nat);
    let mut out: Vec<(String, Option<TypeDescriptor>)> = Vec::new();
    let mut i: usize = 0;
    while i < cases.len()
        invariant
            i <= cases.len(),
            target == resolved_cases(table_model(table@), case_refs_model(cases@), fuel as nat),
            out.len() == i,
            forall|k: int|
                0 <= k < i ==> #[trigger] target[k] == Some((out[k].0@, payload_model(out[k].1))),
        decreases cases.len() - i,
    {
        match resolve_payload(table, &cases[i].1, fuel) {
            Some(payload) => {
                out.push((cases[i].0.clone(), payload));
            },
            None => {
                assert(target[i as int] is None);
                return None;
            },
        }
        i += 1;
    }
    assert(all_or_nothing(target)->Some_0 =~= cases_model(out@));
    Some(out)
}

/// A payload type that may be absent, boxed.
fn boxed_payload(payload: Option<TypeDescriptor>) -> (out: Option<Box<TypeDescriptor>>)
    ensures
        out is Some == payload is Some,
        out is Some ==> *out->Some_0 == payload->Some_0,
{
    match payload {
        Some(t) => Some(Box::new(t)),
        None => None,
    }
}

/// The type that a reference stands for, following at most `fuel`
/// definitions one into the other; nothing, where it stands for none.
pub fn resolve(table: &Vec<TypeDef>, r: TypeRef, fuel: usize) -> (t: Option<TypeDescriptor>)
    ensures
        resolved_model(t) == resolve_ref(table_model(table@), r, fuel as nat),
    decreases fuel, 0int,
{
    match r {
        TypeRef::Bool => Some(TypeDescriptor::Bool),
        TypeRef::U8 => Some(TypeDescriptor::U8),
        TypeRef::U16 => Some(TypeDescriptor::U16),
        TypeRef::U32 => Some(TypeDescriptor::U32),
        TypeRef::U64 => Some(TypeDescriptor::U64),
        TypeRef::S8 => Some(TypeDescriptor::S8),
        TypeRef::S16 => Some(TypeDescriptor::S16),
        TypeRef::S32 => Some(TypeDescriptor::S32),
        TypeRef::S64 => Some(TypeDescriptor::S64),
        TypeRef::Float32 => Some(TypeDescriptor::Float32),
        TypeRef::Float64 => Some(TypeDescriptor::Float64),
        TypeRef::Char => Some(TypeDescriptor::Char),
        TypeRef::String => Some(TypeDescriptor::String),
        TypeRef::Id(i) => {
            if fuel == 0 || i >= table.len() {
                return None;
            }
            let rest = fuel - 1;
            assert(table_model(table@)[i as int] == table[i as int]@);
            match &table[i] {
                TypeDef::Record(fields) => match resolve_named(table, fields, rest) {
                    Some(out) => {
                        proof {
                            lemma_record_model(out);
                        }
                        Some(TypeDescriptor::Record(out))
                    },
                    None => None,
                },
                TypeDef::Resource => {
                    if i <= 0xffff_ffff {
                        Some(TypeDescriptor::Resource(i as u32))
                    } else {
                        None
                    }
                },
                TypeDef::Handle(target) => match resolve(table, TypeRef::Id(*target), rest) {
                    Some(TypeDescriptor::Resource(id)) => Some(TypeDescriptor::Resource(id)),
                    _ => None,
                },
                TypeDef::Flags(names) => Some(TypeDescriptor::Flags(clone_names(names))),
                TypeDef::Tuple(items) => match resolve_each(table, items, rest) {
                    Some(out) => {
                        proof {
                            lemma_tuple_model(out);
                        }
                        Some(TypeDescriptor::Tuple(out))
                    },
                    None => None,
                },
                TypeDef::Variant(cases) => match resolve_cases(table, cases, rest) {
                    Some(out) => {
                        proof {
                            lemma_variant_model(out);
                        }
                        Some(TypeDescriptor::Variant(out))
                    },
                    None => None,
                },
                TypeDef::Enum(names) => Some(TypeDescriptor::Enum(clone_names(names))),
                TypeDef::Option(inner) => match resolve(table, *inner, rest) {
                    Some(t) => Some(TypeDescriptor::Option(Box::new(t))),
                    None => None,
                },
                TypeDef::Result(ok, err) => {
                    match resolve_payload(table, ok, rest) {
                        Some(on_ok) => match resolve_payload(table, err, rest) {
                            Some(on_err) => Some(
                                TypeDescriptor::Result(
                                    boxed_payload(on_ok),
                                    boxed_payload(on_err),
                                ),
                            ),
                            None => None,
                        },
                        None => None,
                    }
                },
                TypeDef::List(inner) => match resolve(table, *inner, rest) {
                    Some(t) => Some(TypeDescriptor::List(Box::new(t))),
                    None => None,
                },
                TypeDef::Alias(inner) => resolve(table, *inner, rest),
                TypeDef::Unsupported => None,
            }
        },
    }
}

/// What a function gives back, as declared.
#[derive(Clone, Debug, PartialEq, Eq)]
pub enum RawResults {
    Named(Vec<(String, TypeRef)>),
    Anon(TypeRef),
}

/// A function, as declared.
#[derive(Clone, Debug, PartialEq, Eq)]
pub struct RawFunction {
    pub name: String,
    pub params: Vec<(String, TypeRef)>,
    pub results: RawResults,
    pub docs: Option<String>,
}

/// What a world exports under one of its names, as declared.
#[derive(Clone, Debug, PartialEq, Eq)]
pub enum RawItem {
    Function(RawFunction),
    Interface,
    Type,
}

/// A world, as declared.
#[derive(Clone, Debug, PartialEq, Eq)]
pub struct RawWorld {
    pub name: String,
    pub exports: Vec<RawItem>,
}

/// The interface description of a component: the table of its types, and
/// its worlds.
#[derive(Clone, Debug, PartialEq, Eq)]
pub struct InterfaceDescription {
    pub types: Vec<TypeDef>,
    pub worlds: Vec<RawWorld>,
}

/// The results that declared results resolve to.
pub open spec fn resolve_results(table: Seq<TypeDefModel>, results: RawResults) -> Option<
    ResultsModel,
> {
    match results {
        RawResults::Named(fields) => match all_or_nothing(
            resolved_fields(table, named_refs_model(fields@), table.len()),
        ) {
            Some(resolved) => Some(ResultsModel::Named(resolved)),
            None => None,
        },
        RawResults::Anon(r) => match resolve_ref(table, r, table.len()) {
            Some(t) => Some(ResultsModel::Anon(t)),
            None => None,
        },
    }
}

/// The signature that a declared function resolves to: the same name and
/// documentation, and the types that its parameters and results stand for.
/// A reference is followed through as many definitions as the table has.
pub open spec fn resolve_function(table: Seq<TypeDefModel>, raw: RawFunction) -> Option<
    SignatureModel,
> {
    match (
        all_or_nothing(resolved_fields(table, named_refs_model(raw.params@), table.len())),
        resolve_results(table, raw.results),
    ) {
        (Some(params), Some(results)) => Some(
            SignatureModel { name: raw.name@, params, results, docs: optional_text(raw.docs) },
        ),
        _ => None,
    }
}

/// What a declared export resolves to.
pub open spec fn resolve_item(table: Seq<TypeDefModel>, item: RawItem) -> Option<WorldItemModel> {
    match item {
        RawItem::Function(raw) => match resolve_function(table, raw) {
            Some(signature) => Some(WorldItemModel::Function(signature)),
            None => None,
        },
        RawItem::Interface => Some(WorldItemModel::Interface),
        RawItem::Type => Some(WorldItemModel::Type),
    }
}

/// What each of the declared exports resolves to.
pub open spec fn resolved_exports(table: Seq<TypeDefModel>, items: Seq<RawItem>) -> Seq<
    Option<WorldItemModel>,
> {
    Seq::new(items.len(), |k: int| resolve_item(table, items[k]))
}

/// What a declared world resolves to.
pub open spec fn resolve_world(table: Seq<TypeDefModel>, world: RawWorld) -> Option<WorldModel> {
    match all_or_nothing(resolved_exports(table, world.exports@)) {
        Some(exports) => Some(WorldModel { name: world.name@, exports }),
        None => None,
    }
}

/// What each of the declared worlds resolves to.
pub open spec fn resolved_worlds(table: Seq<TypeDefModel>, worlds: Seq<RawWorld>) -> Seq<
    Option<WorldModel>,
> {
    Seq::new(worlds.len(), |k: int| resolve_world(table, worlds[k]))
}

/// The worlds of a description with every type resolved; nothing, where a
/// type of an exported function does not resolve.
pub open spec fn loaded(description: InterfaceDescription) -> Option<Seq<WorldModel>> {
    all_or_nothing(resolved_worlds(table_model(description.types@), description.worlds@))
}

/// What is said of a description in which a type does not resolve.
pub open spec fn unresolved_text() -> Seq<char> {
    "a type of an exported function cannot be resolved"@
}

/// The results that declared results resolve to.
fn resolve_raw_results(table: &Vec<TypeDef>, results: &RawResults) -> (r: Option<Results>)
    ensures
        match r {
            Some(out) => resolve_results(table_model(table@), *results) == Some(out@),
            None => resolve_results(table_model(table@), *results) is None,
        },
{
    match results {
        RawResults::Named(fields) => match resolve_named(table, fields, table.len()) {
            Some(out) => Some(Results::Named(out)),
            None => None,
        },
        RawResults::Anon(r) => match resolve(table, *r, table.len()) {
            Some(t) => Some(Results::Anon(t)),
            None => None,
        },
    }
}

/// The signature that a declared function resolves to.
pub fn resolve_signature(table: &Vec<TypeDef>, raw: &RawFunction) -> (r: Option<FunctionSignature>)
    ensures
        match r {
            Some(signature) => resolve_function(table_model(table@), *raw) == Some(signature@),
            None => resolve_function(table_model(table@), *raw) is None,
        },
{
    match resolve_named(table, &raw.params, table.len()) {
        Some(params) => match resolve_raw_results(table, &raw.results) {
            Some(results) => {
                let docs = match &raw.docs {
                    Some(text) => Some(text.clone()),
                    None => None,
                };
                Some(FunctionSignature { name: raw.name.clone(), params, results, docs })
            },
            None => None,
        },
        None => None,
    }
}

/// What a declared world resolves to.
fn load_world(table: &Vec<TypeDef>, world: &RawWorld) -> (r: Option<World>)
    ensures
        match r {
            Some(out) => resolve_world(table_model(table@), *world) == Some(out@),
            None => resolve_world(table_model(table@), *world) is None,
        },
{
    let ghost target = resolved_exports(table_model(table@), world.exports@);
    let mut exports: Vec<WorldItem> = Vec::new();
    let mut i: usize = 0;
    while i < world.exports.len()
        invariant
            i <= world.exports.len(),
            target == resolved_exports(table_model(table@), world.exports@),
            exports.len() == i,
            forall|k: int| 0 <= k < i ==> #[trigger] target[k] == Some(exports[k]@),
        decreases world.exports.len() - i,
    {
        match &world.exports[i] {
            RawItem::Function(raw) => match resolve_signature(table, raw) {
                Some(signature) => {
                    exports.push(WorldItem::Function(signature));
                },
                None => {
                    assert(target[i as int] is None);
                    return None;
                },
            },
            RawItem::Interface => {
                exports.push(WorldItem::Interface);
            },
            RawItem::Type => {
                exports.push(WorldItem::Type);
            },
        }
        i += 1;
    }
    assert(all_or_nothing(target)->Some_0 =~= exports_model(exports@));
    Some(World { name: world.name.clone(), exports })
}

/// Loads an interface description: resolves the types of every exported
/// function, world by world and export by export, in the order of the
/// declarations.
///
/// The description is malformed where a parameter or a result has a type
/// that cannot be resolved; then no world is given, and the error is
/// `InterfaceDecodeError`.
pub fn load(description: &InterfaceDescription) -> (r: Result<Vec<World>, LoadError>)
    ensures
        match r {
            Ok(worlds) => loaded(*description) == Some(worlds_model(worlds@)),
            Err(e) => {
                &&& loaded(*description) is None
                &&& e matches LoadError::InterfaceDecodeError(text)
                &&& text@ == unresolved_text()
            },
        },
{
    let table = &description.types;
    let ghost target = resolved_worlds(table_model(table@), description.worlds@);
    let mut worlds: Vec<World> = Vec::new();
    let mut i: usize = 0;
    while i < description.worlds.len()
        invariant
            i <= description.worlds.len(),
            table == &description.types,
            target == resolved_worlds(table_model(table@), description.worlds@),
            worlds.len() == i,
            forall|k: int| 0 <= k < i ==> #[trigger] target[k] == Some(worlds[k]@),
        decreases description.worlds.len() - i,
    {
        match load_world(table, &description.worlds[i]) {
            Some(world) => {
                worlds.push(world);
            },
            None => {
                assert(target[i as int] is None);
                return Err(
                    LoadError::InterfaceDecodeError(
                        String::from_str("a type of an exported function cannot be resolved"),
                    ),
                );
            },
        }
        i += 1;
    }
    assert(all_or_nothing(target)->Some_0 =~= worlds_model(worlds@));
    Ok(worlds)
}

} // verus!
