//! Endpoints: a function of the component, bound to a path and to something
//! that calls it, and the description of the operation that it offers.

use vstd::prelude::*;
use crate::docs::{description_of, optional_text, split_docs, summary_of};
use crate::media::{json_content_type, json_media_type};
use crate::schema::{object_schema, object_schema_of, schema_of, SchemaModel, SchemaNode};
use crate::signature::{FunctionSignature, Results, ResultsModel};

verus! {

/// The body of a request: its media type and the schema of what it holds.
#[derive(Clone, Debug, PartialEq, Eq)]
pub struct RequestBody {
    pub content_type: String,
    pub schema: SchemaNode,
}

/// The body of a response, with the status under which it is sent.
#[derive(Clone, Debug, PartialEq, Eq)]
pub struct ResponseBody {
    pub status: u16,
    pub content_type: String,
    pub schema: SchemaNode,
}

/// What an endpoint offers: one operation, with its name, its documentation
/// and the schemas of what it takes and gives.
#[derive(Clone, Debug, PartialEq, Eq)]
pub struct Operation {
    pub operation_id: String,
    pub summary: String,
    pub description: Option<String>,
    pub request_body: RequestBody,
    pub response: ResponseBody,
}

/// The HTTP method by which an operation is reached.
#[derive(Clone, Copy, Debug, PartialEq, Eq, Structural)]
pub enum Method {
    Post,
}

/// The entry of one path in the API description.
#[derive(Clone, Debug, PartialEq, Eq)]
pub struct PathItem {
    pub method: Method,
    pub operation: Operation,
}

/// A function of the component, bound to the path under which it is reached
/// and to the handle by which it is called.
#[derive(Clone, Debug)]
pub struct Endpoint<C> {
    pub path: String,
    pub prototype: FunctionSignature,
    pub callable: C,
}

/// The text of a function's documentation; empty where it has none.
pub open spec fn docs_text(docs: Option<Seq<char>>) -> Seq<char> {
    match docs {
        Some(text) => text,
        None => Seq::empty(),
    }
}

/// The schema of what a function gives back: an object with one property for
/// each named result, or the schema of the single result.
pub open spec fn results_schema_of(results: ResultsModel) -> SchemaModel {
    match results {
        ResultsModel::Named(fields) => object_schema_of(fields),
        ResultsModel::Anon(ty) => schema_of(ty),
    }
}

impl<C> Endpoint<C> {
    /// Whether an operation is the one that the endpoint offers: named after
    /// the function, documented by its summary and description, taking a
    /// JSON object with one member for each parameter, and answering with
    /// status 200 and the JSON of the results.
    pub open spec fn describes(self, operation: Operation) -> bool {
        &&& operation.operation_id@ == self.prototype@.name
        &&& operation.summary@ == summary_of(docs_text(self.prototype@.docs))
        &&& optional_text(operation.description) == description_of(docs_text(self.prototype@.docs))
        &&& operation.request_body.content_type@ == json_media_type()
        &&& operation.request_body.schema@ == object_schema_of(self.prototype@.params)
        &&& operation.response.status == 200
        &&& operation.response.content_type@ == json_media_type()
        &&& operation.response.schema@ == results_schema_of(self.prototype@.results)
    }

    /// Whether a path item is the one of the endpoint: its operation,
    /// reached by `POST`.
    pub open spec fn offers(self, item: PathItem) -> bool {
        item.method == Method::Post && self.describes(item.operation)
    }

    /// The endpoint of the function `prototype` under `path`, called through
    /// `callable`.
    pub fn new(path: String, prototype: FunctionSignature, callable: C) -> (endpoint: Self)
        ensures
            endpoint.path == path,
            endpoint.prototype == prototype,
            endpoint.callable == callable,
    {
        Self { path, prototype, callable }
    }

    /// The body that a request to the endpoint has: a JSON object with one
    /// required member for each parameter, under the parameter's name.
    pub fn function_request_body(&self) -> (body: RequestBody)
        ensures
            body.content_type@ == json_media_type(),
            body.schema@ == object_schema_of(self.prototype@.params),
    {
        RequestBody { content_type: json_content_type(), schema: object_schema(&self.prototype.params) }
    }

    /// The summary and the description of the function, from its
    /// documentation: the first line, and what follows it.
    pub fn parse_function_docs(&self) -> (r: (String, Option<String>))
        ensures
            r.0@ == summary_of(docs_text(self.prototype@.docs)),
            optional_text(r.1) == description_of(docs_text(self.prototype@.docs)),
    {
        match &self.prototype.docs {
            Some(text) => split_docs(text.as_str()),
            None => {
                let empty = String::new();
                split_docs(empty.as_str())
            },
        }
    }

    /// The schema of what the function gives back.
    pub fn result_schema(&self) -> (schema: SchemaNode)
        ensures
            schema@ == results_schema_of(self.prototype@.results),
    {
        match &self.prototype.results {
            Results::Named(fields) => object_schema(fields),
            Results::Anon(ty) => ty.into_schema(),
        }
    }

    /// The operation that the endpoint offers: named after the function,
    /// documented by its summary and description, taking the request body
    /// and answering with status 200 and the schema of the results.
    pub fn into_operation(&self) -> (operation: Operation)
        ensures
            self.describes(operation),
    {
        let (summary, description) = self.parse_function_docs();
        let request_body = self.function_request_body();
        let response = ResponseBody {
            status: 200,
            content_type: json_content_type(),
            schema: self.result_schema(),
        };
        Operation {
            operation_id: self.prototype.name.clone(),
            summary,
            description,
            request_body,
            response,
        }
    }

    /// The entry of the endpoint's path: its operation, reached by `POST`.
    pub fn into_path_item(&self) -> (item: PathItem)
        ensures
            self.offers(item),
    {
        PathItem { method: Method::Post, operation: self.into_operation() }
    }
}

} // verus!
