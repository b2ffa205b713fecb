//! Function signatures: what an exported function is called, takes and gives.

use vstd::prelude::*;
use crate::docs::optional_text;
use crate::types::{clone_fields, fields_model, TypeDescriptor, TypeModel};

verus! {

/// What a function gives back.
#[derive(Debug, PartialEq, Eq)]
pub enum Results {
    /// Several results, each with a name, in the order of their declaration.
    Named(Vec<(String, TypeDescriptor)>),
    /// A single result without a name.
    Anon(TypeDescriptor),
}

/// The mathematical value of [`Results`].
pub enum ResultsModel {
    Named(Seq<(Seq<char>, TypeModel)>),
    Anon(TypeModel),
}

impl View for Results {
    type V = ResultsModel;

    open spec fn view(&self) -> ResultsModel {
        match self {
            Results::Named(fields) => ResultsModel::Named(fields_model(fields@)),
            Results::Anon(ty) => ResultsModel::Anon(ty@),
        }
    }
}

impl Clone for Results {
    /// A copy that denotes the same results.
    fn clone(&self) -> (r: Self)
        ensures
            r@ == self@,
    {
        match self {
            Results::Named(fields) => Results::Named(clone_fields(fields)),
            Results::Anon(ty) => Results::Anon(ty.clone()),
        }
    }
}

/// The signature of an exported function.
#[derive(Debug, PartialEq, Eq)]
pub struct FunctionSignature {
    /// The name, which is also the last segment of the function's path.
    pub name: String,
    /// The parameters with their names, in the order of the call.
    pub params: Vec<(String, TypeDescriptor)>,
    pub results: Results,
    /// The documentation text, if the function has any.
    pub docs: Option<String>,
}

/// The mathematical value of a [`FunctionSignature`].
pub struct SignatureModel {
    pub name: Seq<char>,
    pub params: Seq<(Seq<char>, TypeModel)>,
    pub results: ResultsModel,
    pub docs: Option<Seq<char>>,
}

impl View for FunctionSignature {
    type V = SignatureModel;

    open spec fn view(&self) -> SignatureModel {
        SignatureModel {
            name: self.name@,
            params: fields_model(self.params@),
            results: self.results@,
            docs: optional_text(self.docs),
        }
    }
}

impl Clone for FunctionSignature {
    /// A copy that denotes the same signature.
    fn clone(&self) -> (r: Self)
        ensures
            r@ == self@,
    {
        let docs = match &self.docs {
            Some(text) => Some(text.clone()),
            None => None,
        };
        FunctionSignature {
            name: self.name.clone(),
            params: clone_fields(&self.params),
            results: self.results.clone(),
            docs,
        }
    }
}

} // verus!
