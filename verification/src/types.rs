//! Descriptors of the interface types that a component can name.

use vstd::prelude::*;

verus! {

/// The type of a parameter, a result or a part of one. Every named type has
/// been resolved to its definition: a descriptor refers to no other.
#[derive(Debug, PartialEq, Eq)]
pub enum TypeDescriptor {
    Bool,
    U8,
    U16,
    U32,
    U64,
    S8,
    S16,
    S32,
    S64,
    Float32,
    Float64,
    Char,
    String,
    /// A list of any length whose items all have one type.
    List(Box<TypeDescriptor>),
    /// Named fields, in the order of their declaration.
    Record(Vec<(String, TypeDescriptor)>),
    /// Positional items of a fixed number.
    Tuple(Vec<TypeDescriptor>),
    /// Named cases, each with or without a payload.
    Variant(Vec<(String, Option<TypeDescriptor>)>),
    /// Named cases without payloads.
    Enum(Vec<String>),
    Option(Box<TypeDescriptor>),
    /// The payload of success and that of failure, each of which may be absent.
    Result(Option<Box<TypeDescriptor>>, Option<Box<TypeDescriptor>>),
    /// Named bits, any of which may be set.
    Flags(Vec<String>),
    /// A handle to a resource; the number identifies the resource type.
    Resource(u32),
}

/// The mathematical value of a [`TypeDescriptor`].
pub enum TypeModel {
    Bool,
    U8,
    U16,
    U32,
    U64,
    S8,
    S16,
    S32,
    S64,
    Float32,
    Float64,
    Char,
    String,
    List(Box<TypeModel>),
    Record(Seq<(Seq<char>, TypeModel)>),
    Tuple(Seq<TypeModel>),
    Variant(Seq<(Seq<char>, Option<TypeModel>)>),
    Enum(Seq<Seq<char>>),
    Option(Box<TypeModel>),
    Result(Option<Box<TypeModel>>, Option<Box<TypeModel>>),
    Flags(Seq<Seq<char>>),
    Resource(u32),
}

/// Which variant a descriptor is, without what it holds.
#[derive(Clone, Copy, Debug, PartialEq, Eq, Structural)]
pub enum Kind {
    Bool,
    U8,
    U16,
    U32,
    U64,
    S8,
    S16,
    S32,
    S64,
    Float32,
    Float64,
    Char,
    String,
    List,
    Record,
    Tuple,
    Variant,
    Enum,
    Option,
    Result,
    Flags,
    Resource,
}

/// The character sequences of a list of names.
pub open spec fn names_model(names: Seq<String>) -> Seq<Seq<char>> {
    Seq::new(names.len(), |i: int| names[i]@)
}

/// No name occurs twice.
pub open spec fn distinct(names: Seq<Seq<char>>) -> bool {
    forall|i: int, j: int| 0 <= i < j < names.len() ==> names[i] != names[j]
}

/// The names of a list of fields.
pub open spec fn field_names(fields: Seq<(Seq<char>, TypeModel)>) -> Seq<Seq<char>> {
    Seq::new(fields.len(), |i: int| fields[i].0)
}

/// The names of a list of cases.
pub open spec fn case_names(cases: Seq<(Seq<char>, Option<TypeModel>)>) -> Seq<Seq<char>> {
    Seq::new(cases.len(), |i: int| cases[i].0)
}

impl TypeDescriptor {
    /// The mathematical value, part by part.
    pub open spec fn model(self) -> TypeModel
        decreases self,
    {
        match self {
            TypeDescriptor::Bool => TypeModel::Bool,
            TypeDescriptor::U8 => TypeModel::U8,
            TypeDescriptor::U16 => TypeModel::U16,
            TypeDescriptor::U32 => TypeModel::U32,
            TypeDescriptor::U64 => TypeModel::U64,
            TypeDescriptor::S8 => TypeModel::S8,
            TypeDescriptor::S16 => TypeModel::S16,
            TypeDescriptor::S32 => TypeModel::S32,
            TypeDescriptor::S64 => TypeModel::S64,
            TypeDescriptor::Float32 => TypeModel::Float32,
            TypeDescriptor::Float64 => TypeModel::Float64,
            TypeDescriptor::Char => TypeModel::Char,
            TypeDescriptor::String => TypeModel::String,
            TypeDescriptor::List(item) => TypeModel::List(Box::new((*item).model())),
            TypeDescriptor::Record(fields) => TypeModel::Record(
                Seq::new(
                    fields.len() as nat,
                    |i: int|
                        if 0 <= i < fields.len() {
                            (fields[i].0@, fields[i].1.model())
                        } else {
                            arbitrary()
                        },
                ),
            ),
            TypeDescriptor::Tuple(items) => TypeModel::Tuple(
                Seq::new(
                    items.len() as nat,
                    |i: int|
                        if 0 <= i < items.len() {
                            items[i].model()
                        } else {
                            arbitrary()
                        },
                ),
            ),
            TypeDescriptor::Variant(cases) => TypeModel::Variant(
                Seq::new(
                    cases.len() as nat,
                    |i: int|
                        if 0 <= i < cases.len() {
                            (
                                cases[i].0@,
                                match cases[i].1 {
                                    Some(payload) => Some(payload.model()),
                                    None => None,
                                },
                            )
                        } else {
                            arbitrary()
                        },
                ),
            ),
            TypeDescriptor::Enum(names) => TypeModel::Enum(names_model(names@)),
            TypeDescriptor::Option(item) => TypeModel::Option(Box::new((*item).model())),
            TypeDescriptor::Result(ok, err) => TypeModel::Result(
                match ok {
                    Some(t) => Some(Box::new((*t).model())),
                    None => None,
                },
                match err {
                    Some(t) => Some(Box::new((*t).model())),
                    None => None,
                },
            ),
            TypeDescriptor::Flags(names) => TypeModel::Flags(names_model(names@)),
            TypeDescriptor::Resource(id) => TypeModel::Resource(id),
        }
    }

    /// Which variant the descriptor is.
    pub fn kind(&self) -> (k: Kind)
        ensures
            k == self@.kind(),
    {
        match self {
            TypeDescriptor::Bool => Kind::Bool,
            TypeDescriptor::U8 => Kind::U8,
            TypeDescriptor::U16 => Kind::U16,
            TypeDescriptor::U32 => Kind::U32,
            TypeDescriptor::U64 => Kind::U64,
            TypeDescriptor::S8 => Kind::S8,
            TypeDescriptor::S16 => Kind::S16,
            TypeDescriptor::S32 => Kind::S32,
            TypeDescriptor::S64 => Kind::S64,
            TypeDescriptor::Float32 => Kind::Float32,
            TypeDescriptor::Float64 => Kind::Float64,
            TypeDescriptor::Char => Kind::Char,
            TypeDescriptor::String => Kind::String,
            TypeDescriptor::List(_) => Kind::List,
            TypeDescriptor::Record(_) => Kind::Record,
            TypeDescriptor::Tuple(_) => Kind::Tuple,
            TypeDescriptor::Variant(_) => Kind::Variant,
            TypeDescriptor::Enum(_) => Kind::Enum,
            TypeDescriptor::Option(_) => Kind::Option,
            TypeDescriptor::Result(_, _) => Kind::Result,
            TypeDescriptor::Flags(_) => Kind::Flags,
            TypeDescriptor::Resource(_) => Kind::Resource,
        }
    }
}

/// The types of a list of descriptors.
pub open spec fn types_model(types: Seq<TypeDescriptor>) -> Seq<TypeModel> {
    Seq::new(types.len(), |i: int| types[i].model())
}

/// The names and types of a list of fields.
pub open spec fn fields_model(fields: Seq<(String, TypeDescriptor)>) -> Seq<(Seq<char>, TypeModel)> {
    Seq::new(fields.len(), |i: int| (fields[i].0@, fields[i].1.model()))
}

/// The payload type of a case, if it has one.
pub open spec fn payload_model(payload: Option<TypeDescriptor>) -> Option<TypeModel> {
    match payload {
        Some(t) => Some(t.model()),
        None => None,
    }
}

/// The names and payload types of a list of cases.
pub open spec fn cases_model(cases: Seq<(String, Option<TypeDescriptor>)>) -> Seq<
    (Seq<char>, Option<TypeModel>),
> {
    Seq::new(cases.len(), |i: int| (cases[i].0@, payload_model(cases[i].1)))
}

/// The model of a record is the model of its fields.
pub proof fn lemma_record_model(fields: Vec<(String, TypeDescriptor)>)
    ensures
        TypeDescriptor::Record(fields).model() == TypeModel::Record(fields_model(fields@)),
{
    assert(TypeDescriptor::Record(fields).model()->Record_0 =~= fields_model(fields@));
}

/// The model of a tuple is the model of its items.
pub proof fn lemma_tuple_model(types: Vec<TypeDescriptor>)
    ensures
        TypeDescriptor::Tuple(types).model() == TypeModel::Tuple(types_model(types@)),
{
    assert(TypeDescriptor::Tuple(types).model()->Tuple_0 =~= types_model(types@));
}

/// The model of a variant is the model of its cases.
pub proof fn lemma_variant_model(cases: Vec<(String, Option<TypeDescriptor>)>)
    ensures
        TypeDescriptor::Variant(cases).model() == TypeModel::Variant(cases_model(cases@)),
{
    assert(TypeDescriptor::Variant(cases).model()->Variant_0 =~= cases_model(cases@));
}

impl View for TypeDescriptor {
    type V = TypeModel;

    open spec fn view(&self) -> TypeModel {
        self.model()
    }
}

impl TypeModel {
    /// Which variant the type is.
    pub open spec fn kind(self) -> Kind {
        match self {
            TypeModel::Bool => Kind::Bool,
            TypeModel::U8 => Kind::U8,
            TypeModel::U16 => Kind::U16,
            TypeModel::U32 => Kind::U32,
            TypeModel::U64 => Kind::U64,
            TypeModel::S8 => Kind::S8,
            TypeModel::S16 => Kind::S16,
            TypeModel::S32 => Kind::S32,
            TypeModel::S64 => Kind::S64,
            TypeModel::Float32 => Kind::Float32,
            TypeModel::Float64 => Kind::Float64,
            TypeModel::Char => Kind::Char,
            TypeModel::String => Kind::String,
            TypeModel::List(_) => Kind::List,
            TypeModel::Record(_) => Kind::Record,
            TypeModel::Tuple(_) => Kind::Tuple,
            TypeModel::Variant(_) => Kind::Variant,
            TypeModel::Enum(_) => Kind::Enum,
            TypeModel::Option(_) => Kind::Option,
            TypeModel::Result(_, _) => Kind::Result,
            TypeModel::Flags(_) => Kind::Flags,
            TypeModel::Resource(_) => Kind::Resource,
        }
    }

    /// A scalar holds no other type.
    pub open spec fn is_scalar(self) -> bool {
        match self {
            TypeModel::Bool
            | TypeModel::U8
            | TypeModel::U16
            | TypeModel::U32
            | TypeModel::U64
            | TypeModel::S8
            | TypeModel::S16
            | TypeModel::S32
            | TypeModel::S64
            | TypeModel::Float32
            | TypeModel::Float64
            | TypeModel::Char
            | TypeModel::String => true,
            _ => false,
        }
    }

    /// The fields of every record in the type, at any depth, have names that
    /// differ from one another, and so have the cases of every variant.
    pub open spec fn well_formed(self) -> bool
        decreases self,
    {
        match self {
            TypeModel::List(item) => item.well_formed(),
            TypeModel::Record(fields) => {
                &&& distinct(field_names(fields))
                &&& forall|i: int| 0 <= i < fields.len() ==> (#[trigger] fields[i]).1.well_formed()
            },
            TypeModel::Tuple(items) => forall|i: int|
                0 <= i < items.len() ==> (#[trigger] items[i]).well_formed(),
            TypeModel::Variant(cases) => {
                &&& distinct(case_names(cases))
                &&& forall|i: int|
                    0 <= i < cases.len() ==> match (#[trigger] cases[i]).1 {
                        Some(payload) => payload.well_formed(),
                        None => true,
                    }
            },
            TypeModel::Option(item) => item.well_formed(),
            TypeModel::Result(ok, err) => {
                &&& match ok {
                    Some(t) => t.well_formed(),
                    None => true,
                }
                &&& match err {
                    Some(t) => t.well_formed(),
                    None => true,
                }
            },
            _ => true,
        }
    }
}

} // verus!

verus! {

/// A copy of a list of names.
pub fn clone_names(names: &Vec<String>) -> (out: Vec<String>)
    ensures
        names_model(out@) == names_model(names@),
{
    let mut out: Vec<String> = Vec::new();
    let mut i: usize = 0;
    while i < names.len()
        invariant
            i <= names.len(),
            out.len() == i,
            forall|k: int| 0 <= k < i ==> (#[trigger] out[k])@ == names[k]@,
        decreases names.len() - i,
    {
        out.push(names[i].clone());
        i += 1;
    }
    assert(names_model(out@) =~= names_model(names@));
    out
}

/// A copy of a list of named types.
pub fn clone_fields(fields: &Vec<(String, TypeDescriptor)>) -> (out: Vec<(String, TypeDescriptor)>)
    ensures
        fields_model(out@) == fields_model(fields@),
    decreases fields,
{
    let mut out: Vec<(String, TypeDescriptor)> = Vec::new();
    let mut i: usize = 0;
    while i < fields.len()
        invariant
            i <= fields.len(),
            out.len() == i,
            forall|k: int|
                0 <= k < i ==> (#[trigger] out[k]).0@ == fields[k].0@ && out[k].1@ == fields[k].1@,
        decreases fields.len() - i,
    {
        let ty = fields[i].1.clone();
        out.push((fields[i].0.clone(), ty));
        i += 1;
    }
    assert(fields_model(out@) =~= fields_model(fields@));
    out
}

/// A copy of a list of types.
fn clone_types(types: &Vec<TypeDescriptor>) -> (out: Vec<TypeDescriptor>)
    ensures
        types_model(out@) == types_model(types@),
    decreases types,
{
    let mut out: Vec<TypeDescriptor> = Vec::new();
    let mut i: usize = 0;
    while i < types.len()
        invariant
            i <= types.len(),
            out.len() == i,
            forall|k: int| 0 <= k < i ==> (#[trigger] out[k])@ == types[k]@,
        decreases types.len() - i,
    {
        let ty = types[i].clone();
        out.push(ty);
        i += 1;
    }
    assert(types_model(out@) =~= types_model(types@));
    out
}

/// A copy of a list of cases.
fn clone_cases(cases: &Vec<(String, Option<TypeDescriptor>)>) -> (out: Vec<
    (String, Option<TypeDescriptor>),
>)
    ensures
        cases_model(out@) == cases_model(cases@),
    decreases cases,
{
    let mut out: Vec<(String, Option<TypeDescriptor>)> = Vec::new();
    let mut i: usize = 0;
    while i < cases.len()
        invariant
            i <= cases.len(),
            out.len() == i,
            forall|k: int|
                0 <= k < i ==> (#[trigger] out[k]).0@ == cases[k].0@ && payload_model(out[k].1)
                    == payload_model(cases[k].1),
        decreases cases.len() - i,
    {
        let payload = match &cases[i].1 {
            Some(t) => Some(t.clone()),
            None => None,
        };
        out.push((cases[i].0.clone(), payload));
        i += 1;
    }
    assert(cases_model(out@) =~= cases_model(cases@));
    out
}

/// A copy of a boxed type that may be absent.
fn clone_boxed(payload: &Option<Box<TypeDescriptor>>) -> (out: Option<Box<TypeDescriptor>>)
    ensures
        out is Some == payload is Some,
        out is Some ==> (*out->Some_0)@ == (*payload->Some_0)@,
    decreases payload,
{
    match payload {
        Some(t) => Some(Box::new((&**t).clone())),
        None => None,
    }
}

impl Clone for TypeDescriptor {
    /// A copy that denotes the same type.
    fn clone(&self) -> (r: Self)
        ensures
            r@ == self@,
        decreases self,
    {
        match self {
            TypeDescriptor::Bool => TypeDescriptor::Bool,
            TypeDescriptor::U8 => TypeDescriptor::U8,
            TypeDescriptor::U16 => TypeDescriptor::U16,
            TypeDescriptor::U32 => TypeDescriptor::U32,
            TypeDescriptor::U64 => TypeDescriptor::U64,
            TypeDescriptor::S8 => TypeDescriptor::S8,
            TypeDescriptor::S16 => TypeDescriptor::S16,
            TypeDescriptor::S32 => TypeDescriptor::S32,
            TypeDescriptor::S64 => TypeDescriptor::S64,
            TypeDescriptor::Float32 => TypeDescriptor::Float32,
            TypeDescriptor::Float64 => TypeDescriptor::Float64,
            TypeDescriptor::Char => TypeDescriptor::Char,
            TypeDescriptor::String => TypeDescriptor::String,
            TypeDescriptor::List(item) => TypeDescriptor::List(Box::new((&**item).clone())),
            TypeDescriptor::Record(fields) => {
                let out = clone_fields(fields);
                proof {
                    lemma_record_model(out);
                    lemma_record_model(*fields);
                }
                TypeDescriptor::Record(out)
            },
            TypeDescriptor::Tuple(types) => {
                let out = clone_types(types);
                proof {
                    lemma_tuple_model(out);
                    lemma_tuple_model(*types);
                }
                TypeDescriptor::Tuple(out)
            },
            TypeDescriptor::Variant(cases) => {
                let out = clone_cases(cases);
                proof {
                    lemma_variant_model(out);
                    lemma_variant_model(*cases);
                }
                TypeDescriptor::Variant(out)
            },
            TypeDescriptor::Enum(names) => TypeDescriptor::Enum(clone_names(names)),
            TypeDescriptor::Option(item) => TypeDescriptor::Option(Box::new((&**item).clone())),
            TypeDescriptor::Result(ok, err) => TypeDescriptor::Result(
                clone_boxed(ok),
                clone_boxed(err),
            ),
            TypeDescriptor::Flags(names) => TypeDescriptor::Flags(clone_names(names)),
            TypeDescriptor::Resource(id) => TypeDescriptor::Resource(*id),
        }
    }
}

} // verus!
