//! What can go wrong, at load time and for one request.

use vstd::prelude::*;
use crate::json::{
    lemma_array_model, lemma_object_model, items_model, members_model, JsonModel, JsonValue, Number,
    NumberModel,
};
use crate::types::Kind;
use crate::value::{MismatchModel, Segment, SegmentModel, TypeMismatch};

verus! {

/// Why a request was not answered with the result of its call.
#[derive(Clone, Debug, PartialEq, Eq)]
pub enum DispatchError {
    /// The body has no member for the parameter of this name.
    MissingParameter(String),
    /// An argument does not have the shape of its parameter's type. The path
    /// starts with the parameter's name.
    TypeMismatch(TypeMismatch),
    /// The call itself failed, or gave back what the signature does not
    /// announce; the text says how.
    CallFailed(String),
    /// The cleanup after the call failed; the text says how.
    CleanupFailed(String),
}

/// The mathematical value of a [`DispatchError`].
pub enum DispatchErrorModel {
    MissingParameter(Seq<char>),
    TypeMismatch(MismatchModel),
    CallFailed(Seq<char>),
    CleanupFailed(Seq<char>),
}

impl View for DispatchError {
    type V = DispatchErrorModel;

    open spec fn view(&self) -> DispatchErrorModel {
        match self {
            DispatchError::MissingParameter(name) => DispatchErrorModel::MissingParameter(name@),
            DispatchError::TypeMismatch(mismatch) => DispatchErrorModel::TypeMismatch(mismatch@),
            DispatchError::CallFailed(details) => DispatchErrorModel::CallFailed(details@),
            DispatchError::CleanupFailed(details) => DispatchErrorModel::CleanupFailed(details@),
        }
    }
}

/// The variant of an error, without what it holds.
#[derive(Clone, Copy, Debug, PartialEq, Eq, Structural)]
pub enum ErrorKind {
    MissingParameter,
    TypeMismatch,
    CallFailed,
    CleanupFailed,
}

impl DispatchErrorModel {
    /// The variant of the error, without what it holds.
    pub open spec fn kind(self) -> ErrorKind {
        match self {
            DispatchErrorModel::MissingParameter(_) => ErrorKind::MissingParameter,
            DispatchErrorModel::TypeMismatch(_) => ErrorKind::TypeMismatch,
            DispatchErrorModel::CallFailed(_) => ErrorKind::CallFailed,
            DispatchErrorModel::CleanupFailed(_) => ErrorKind::CleanupFailed,
        }
    }
}

/// The HTTP status that answers an error of a kind: 400 where the client
/// sent a body that does not fit the signature, 500 where the execution
/// engine failed.
pub open spec fn status_of(kind: ErrorKind) -> u16 {
    match kind {
        ErrorKind::MissingParameter => 400,
        ErrorKind::TypeMismatch => 400,
        ErrorKind::CallFailed => 500,
        ErrorKind::CleanupFailed => 500,
    }
}

impl ErrorKind {
    /// The HTTP status that answers an error of this kind.
    pub fn status(self) -> (code: u16)
        ensures
            code == status_of(self),
    {
        match self {
            ErrorKind::MissingParameter => 400,
            ErrorKind::TypeMismatch => 400,
            ErrorKind::CallFailed => 500,
            ErrorKind::CleanupFailed => 500,
        }
    }
}

impl DispatchError {
    /// The variant of the error, without what it holds.
    pub fn kind(&self) -> (k: ErrorKind)
        ensures
            k == self@.kind(),
    {
        match self {
            DispatchError::MissingParameter(_) => ErrorKind::MissingParameter,
            DispatchError::TypeMismatch(_) => ErrorKind::TypeMismatch,
            DispatchError::CallFailed(_) => ErrorKind::CallFailed,
            DispatchError::CleanupFailed(_) => ErrorKind::CleanupFailed,
        }
    }

    /// The HTTP status that answers the error.
    pub fn status(&self) -> (code: u16)
        ensures
            code == status_of(self@.kind()),
    {
        self.kind().status()
    }
}

/// The name of a kind of type, as the interface language writes it.
pub open spec fn kind_name(kind: Kind) -> Seq<char> {
    match kind {
        Kind::Bool => "bool"@,
        Kind::U8 => "u8"@,
        Kind::U16 => "u16"@,
        Kind::U32 => "u32"@,
        Kind::U64 => "u64"@,
        Kind::S8 => "s8"@,
        Kind::S16 => "s16"@,
        Kind::S32 => "s32"@,
        Kind::S64 => "s64"@,
        Kind::Float32 => "float32"@,
        Kind::Float64 => "float64"@,
        Kind::Char => "char"@,
        Kind::String => "string"@,
        Kind::List => "list"@,
        Kind::Record => "record"@,
        Kind::Tuple => "tuple"@,
        Kind::Variant => "variant"@,
        Kind::Enum => "enum"@,
        Kind::Option => "option"@,
        Kind::Result => "result"@,
        Kind::Flags => "flags"@,
        Kind::Resource => "resource"@,
    }
}

/// The name of a kind of error.
pub open spec fn error_name(kind: ErrorKind) -> Seq<char> {
    match kind {
        ErrorKind::MissingParameter => "missing_parameter"@,
        ErrorKind::TypeMismatch => "type_mismatch"@,
        ErrorKind::CallFailed => "call_failed"@,
        ErrorKind::CleanupFailed => "cleanup_failed"@,
    }
}

/// A step of a path as JSON: the name of a member as a string, the position
/// of an item as a number.
pub open spec fn segment_json(step: SegmentModel) -> JsonModel {
    match step {
        SegmentModel::Key(name) => JsonModel::String(name),
        SegmentModel::Index(i) => JsonModel::Number(NumberModel::Int(i as int)),
    }
}

/// The body that tells a client of an error: an object with the member
/// `error`, which names the kind of the error, and with what the error
/// holds. For a missing parameter that is its name under `parameter`; for
/// a mismatch the path to the offending part under `path` and the name of
/// the expected kind of type under `expected`; for a failed call or cleanup
/// what was said of it under `detail`.
pub open spec fn error_body(e: DispatchErrorModel) -> JsonModel {
    let kind = JsonModel::String(error_name(e.kind()));
    match e {
        DispatchErrorModel::MissingParameter(name) => JsonModel::Object(
            seq![("error"@, kind), ("parameter"@, JsonModel::String(name))],
        ),
        DispatchErrorModel::TypeMismatch(mismatch) => JsonModel::Object(
            seq![
                ("error"@, kind),
                (
                    "path"@,
                    JsonModel::Array(
                        Seq::new(mismatch.path.len(), |i: int| segment_json(mismatch.path[i])),
                    ),
                ),
                ("expected"@, JsonModel::String(kind_name(mismatch.expected))),
            ],
        ),
        DispatchErrorModel::CallFailed(details) => JsonModel::Object(
            seq![("error"@, kind), ("detail"@, JsonModel::String(details))],
        ),
        DispatchErrorModel::CleanupFailed(details) => JsonModel::Object(
            seq![("error"@, kind), ("detail"@, JsonModel::String(details))],
        ),
    }
}

impl Kind {
    /// The name of the kind, as the interface language writes it.
    pub fn name(self) -> (text: String)
        ensures
            text@ == kind_name(self),
    {
        match self {
            Kind::Bool => String::from_str("bool"),
            Kind::U8 => String::from_str("u8"),
            Kind::U16 => String::from_str("u16"),
            Kind::U32 => String::from_str("u32"),
            Kind::U64 => String::from_str("u64"),
            Kind::S8 => String::from_str("s8"),
            Kind::S16 => String::from_str("s16"),
            Kind::S32 => String::from_str("s32"),
            Kind::S64 => String::from_str("s64"),
            Kind::Float32 => String::from_str("float32"),
            Kind::Float64 => String::from_str("float64"),
            Kind::Char => String::from_str("char"),
            Kind::String => String::from_str("string"),
            Kind::List => String::from_str("list"),
            Kind::Record => String::from_str("record"),
            Kind::Tuple => String::from_str("tuple"),
            Kind::Variant => String::from_str("variant"),
            Kind::Enum => String::from_str("enum"),
            Kind::Option => String::from_str("option"),
            Kind::Result => String::from_str("result"),
            Kind::Flags => String::from_str("flags"),
            Kind::Resource => String::from_str("resource"),
        }
    }
}

impl ErrorKind {
    /// The name of the kind.
    pub fn name(self) -> (text: String)
        ensures
            text@ == error_name(self),
    {
        match self {
            ErrorKind::MissingParameter => String::from_str("missing_parameter"),
            ErrorKind::TypeMismatch => String::from_str("type_mismatch"),
            ErrorKind::CallFailed => String::from_str("call_failed"),
            ErrorKind::CleanupFailed => String::from_str("cleanup_failed"),
        }
    }
}

/// The steps of a path as JSON, one for one.
fn path_to_json(path: &Vec<Segment>) -> (out: Vec<JsonValue>)
    ensures
        out.len() == path.len(),
        forall|i: int| 0 <= i < path.len() ==> (#[trigger] out[i])@ == segment_json(path[i]@),
{
    let mut out: Vec<JsonValue> = Vec::new();
    let mut i: usize = 0;
    while i < path.len()
        invariant
            i <= path.len(),
            out.len() == i,
            forall|k: int| 0 <= k < i ==> (#[trigger] out[k])@ == segment_json(path[k]@),
        decreases path.len() - i,
    {
        let step = match &path[i] {
            Segment::Key(name) => JsonValue::String(name.clone()),
            Segment::Index(position) => JsonValue::Number(Number::from_u64(*position as u64)),
        };
        out.push(step);
        i += 1;
    }
    out
}

impl DispatchError {
    /// The body that tells a client of the error.
    pub fn to_json(&self) -> (body: JsonValue)
        ensures
            body@ == error_body(self@),
    {
        let mut members: Vec<(String, JsonValue)> = Vec::new();
        members.push((String::from_str("error"), JsonValue::String(self.kind().name())));
        match self {
            DispatchError::MissingParameter(name) => {
                members.push((String::from_str("parameter"), JsonValue::String(name.clone())));
            },
            DispatchError::TypeMismatch(mismatch) => {
                let steps = path_to_json(&mismatch.path);
                proof {
                    lemma_array_model(steps);
                    assert(items_model(steps@) =~= error_body(self@)->Object_0[1].1->Array_0);
                }
                members.push((String::from_str("path"), JsonValue::Array(steps)));
                members.push(
                    (String::from_str("expected"), JsonValue::String(mismatch.expected.name())),
                );
            },
            DispatchError::CallFailed(details) => {
                members.push((String::from_str("detail"), JsonValue::String(details.clone())));
            },
            DispatchError::CleanupFailed(details) => {
                members.push((String::from_str("detail"), JsonValue::String(details.clone())));
            },
        }
        proof {
            lemma_object_model(members);
            assert(members_model(members@) =~= error_body(self@)->Object_0);
        }
        JsonValue::Object(members)
    }
}

/// What can go wrong while the endpoints are set up.
#[derive(Clone, Debug, PartialEq, Eq)]
pub enum LoadError {
    /// The interface description is malformed; the text says how. No
    /// endpoint can be built.
    InterfaceDecodeError(String),
    /// A function derives a path that an earlier function has taken. The
    /// earlier function keeps the path, and this one gets no endpoint.
    DuplicatePath(String),
}

} // verus!
